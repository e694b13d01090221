//! Profiling harness contracts for optimization cycles: a deterministic
//! profiling workflow (flamegraph, heap, syscall), an impact-confidence-effort
//! opportunity matrix with a deterministic ranking, the crawl/ingest
//! optimization track, and a one-lever-at-a-time iteration validator.

use vstd::prelude::*;
use crate::text::{lemma_seq_lt_asym, lemma_seq_lt_trans, push_str, seq_lt, str_compare, trim, trimmed};

verus! {

broadcast use vstd::seq_lib::group_to_multiset_ensures;

/// Schema version for the profiling workflow contract.
pub const PROFILING_WORKFLOW_SCHEMA_VERSION: &'static str = "fsfs-profiling-workflow-v1";

/// Schema version for the opportunity-matrix contract.
pub const OPPORTUNITY_MATRIX_SCHEMA_VERSION: &'static str = "fsfs-opportunity-matrix-v1";

/// Schema version for crawl/ingest optimization track planning.
pub const CRAWL_INGEST_OPT_TRACK_SCHEMA_VERSION: &'static str = "fsfs-crawl-ingest-opt-track-v1";

/// Reason code emitted when an optimization iteration is accepted.
pub const ITERATION_REASON_ACCEPTED: &'static str = "opt.iteration.accepted";

/// Reason code emitted when no lever changed.
pub const ITERATION_REASON_NO_CHANGE: &'static str = "opt.iteration.invalid.no_change";

/// Reason code emitted when more than one lever changed.
pub const ITERATION_REASON_MULTI_CHANGE: &'static str = "opt.iteration.invalid.multiple_levers";

// ---------------------------------------------------------------------------
// Profiling workflow
// ---------------------------------------------------------------------------
/// Profile lane required by the harness.
#[derive(Debug, Clone, Copy, PartialEq, Eq, PartialOrd, Ord, Hash, Structural)]
pub enum ProfileKind {
    /// CPU hotspot profile (flamegraph).
    Flamegraph,
    /// Heap/allocation profile.
    Heap,
    /// Syscall profile.
    Syscall,
}

/// Lower-case name of a profile kind.
pub open spec fn kind_label(k: ProfileKind) -> Seq<char> {
    match k {
        ProfileKind::Flamegraph => "flamegraph"@,
        ProfileKind::Heap => "heap"@,
        ProfileKind::Syscall => "syscall"@,
    }
}

impl ProfileKind {
    /// Lower-case name of the profile kind.
    pub fn as_str(self) -> (s: &'static str)
        ensures
            s@ == kind_label(self),
    {
        match self {
            ProfileKind::Flamegraph => "flamegraph",
            ProfileKind::Heap => "heap",
            ProfileKind::Syscall => "syscall",
        }
    }

    /// The display text of the profile kind.
    pub fn to_display_string(self) -> (s: String)
        ensures
            s@ == kind_label(self),
    {
        String::from_str(self.as_str())
    }
}

/// One deterministic profiling step.
#[derive(Debug, Clone, PartialEq, Eq)]
pub struct ProfileStep {
    /// Profile lane this step captures.
    pub kind: ProfileKind,
    /// Human-readable label used in manifests and logs.
    pub label: String,
    /// Command template to run.
    pub command: String,
    /// Artifact path template.
    pub artifact_path: String,
}

/// A profiling step as plain values: kind, label, command, artifact path.
pub type StepView = (ProfileKind, Seq<char>, Seq<char>, Seq<char>);

/// The plain values of a profiling step.
pub open spec fn step_view(s: ProfileStep) -> StepView {
    (s.kind, s.label@, s.command@, s.artifact_path@)
}

/// The plain values of a sequence of profiling steps.
pub open spec fn steps_view(s: Seq<ProfileStep>) -> Seq<StepView> {
    s.map_values(|x: ProfileStep| step_view(x))
}

/// Deterministic profile workflow for a dataset profile.
#[derive(Debug, Clone, PartialEq, Eq)]
pub struct ProfileWorkflow {
    /// Contract schema version.
    pub schema_version: String,
    /// Dataset profile (tiny/small/medium/etc).
    pub dataset_profile: String,
    /// Ordered profile steps.
    pub steps: Vec<ProfileStep>,
}

/// The dataset profile a request names: trimmed, and `small` when blank.
pub open spec fn normalized_profile(p: Seq<char>) -> Seq<char> {
    if trimmed(p).len() == 0 {
        "small"@
    } else {
        trimmed(p)
    }
}

/// The three profiling steps for dataset profile `p`.
pub open spec fn workflow_steps(p: Seq<char>) -> Seq<StepView> {
    seq![
        (
            ProfileKind::Flamegraph,
            "cpu.hotspots"@,
            "cargo flamegraph -p frankensearch-fsfs --test benchmark_baseline_matrix -- --profile "@ + p,
            "profiles/"@ + p + "/flamegraph.svg"@,
        ),
        (
            ProfileKind::Heap,
            "heap.allocations"@,
            "heaptrack target/release/fsfs --mode benchmark --profile "@ + p,
            "profiles/"@ + p + "/heaptrack.out"@,
        ),
        (
            ProfileKind::Syscall,
            "syscalls.io"@,
            "strace -ff -ttT -o profiles/"@ + p + "/syscall target/release/fsfs --mode benchmark --profile "@ + p,
            "profiles/"@ + p + "/syscall.*"@,
        ),
    ]
}

/// Profile kind and `prefix p suffix` paths.
fn surround(prefix: &str, p: &str, suffix: &str) -> (s: String)
    ensures
        s@ == prefix@ + p@ + suffix@,
{
    let mut s = String::new();
    push_str(&mut s, prefix);
    push_str(&mut s, p);
    push_str(&mut s, suffix);
    proof {
        assert(s@ =~= prefix@ + p@ + suffix@);
    }
    s
}

impl ProfileWorkflow {
    /// Build the default profiling workflow for a dataset profile.
    pub fn for_dataset_profile(dataset_profile: &str) -> (w: Self)
        ensures
            w.schema_version@ == PROFILING_WORKFLOW_SCHEMA_VERSION@,
            w.dataset_profile@ == normalized_profile(dataset_profile@),
            steps_view(w.steps@) == workflow_steps(normalized_profile(dataset_profile@)),
    {
        let trimmed_profile = trim(dataset_profile);
        let normalized = if trimmed_profile.unicode_len() == 0 {
            String::from_str("small")
        } else {
            trimmed_profile
        };
        let p = normalized.as_str();
        let steps = vec![
            ProfileStep {
                kind: ProfileKind::Flamegraph,
                label: String::from_str("cpu.hotspots"),
                command: surround(
                    "cargo flamegraph -p frankensearch-fsfs --test benchmark_baseline_matrix -- --profile ",
                    p,
                    "",
                ),
                artifact_path: surround("profiles/", p, "/flamegraph.svg"),
            },
            ProfileStep {
                kind: ProfileKind::Heap,
                label: String::from_str("heap.allocations"),
                command: surround("heaptrack target/release/fsfs --mode benchmark --profile ", p, ""),
                artifact_path: surround("profiles/", p, "/heaptrack.out"),
            },
            ProfileStep {
                kind: ProfileKind::Syscall,
                label: String::from_str("syscalls.io"),
                command: {
                    let mut c = surround("strace -ff -ttT -o profiles/", p, "/syscall target/release/fsfs --mode benchmark --profile ");
                    push_str(&mut c, p);
                    c
                },
                artifact_path: surround("profiles/", p, "/syscall.*"),
            },
        ];
        proof {
            reveal_strlit("");
            assert(steps_view(steps@) =~= workflow_steps(normalized@));
        }
        ProfileWorkflow {
            schema_version: String::from_str(PROFILING_WORKFLOW_SCHEMA_VERSION),
            dataset_profile: normalized,
            steps,
        }
    }

    /// Materialize deterministic artifact entries for a run: one per step, its
    /// path under `run_id/` and its replay command.
    pub fn artifact_manifest(&self, run_id: &str) -> (out: Vec<ProfileArtifact>)
        ensures
            out@.len() == self.steps@.len(),
            forall|i: int|
                0 <= i < out@.len() ==> {
                    &&& (#[trigger] out@[i]).kind == self.steps@[i].kind
                    &&& out@[i].artifact_path@ == run_id@ + "/"@ + self.steps@[i].artifact_path@
                    &&& out@[i].replay_command@ == "fsfs profile replay --run-id "@ + run_id@ + " --kind "@
                        + kind_label(self.steps@[i].kind)
                },
    {
        let mut out: Vec<ProfileArtifact> = Vec::new();
        let mut i: usize = 0;
        while i < self.steps.len()
            invariant
                i <= self.steps@.len(),
                out@.len() == i,
                forall|k: int|
                    0 <= k < i ==> {
                        &&& (#[trigger] out@[k]).kind == self.steps@[k].kind
                        &&& out@[k].artifact_path@ == run_id@ + "/"@ + self.steps@[k].artifact_path@
                        &&& out@[k].replay_command@ == "fsfs profile replay --run-id "@ + run_id@ + " --kind "@
                            + kind_label(self.steps@[k].kind)
                    },
            decreases self.steps@.len() - i,
        {
            let step = &self.steps[i];
            let artifact_path = surround(run_id, "/", step.artifact_path.as_str());
            let replay_command = surround("fsfs profile replay --run-id ", run_id, " --kind ");
            let mut replay_command = replay_command;
            push_str(&mut replay_command, step.kind.as_str());
            out.push(ProfileArtifact { kind: step.kind, artifact_path, replay_command });
            i = i + 1;
        }
        out
    }
}

/// Artifact descriptor emitted by the harness.
#[derive(Debug, Clone, PartialEq, Eq)]
pub struct ProfileArtifact {
    /// Profile lane.
    pub kind: ProfileKind,
    /// Path relative to benchmark artifact root.
    pub artifact_path: String,
    /// Replay command for deterministic triage.
    pub replay_command: String,
}

// ---------------------------------------------------------------------------
// Opportunity matrix
// ---------------------------------------------------------------------------
/// One candidate optimization opportunity.
#[derive(Debug, PartialEq, Eq)]
pub struct OpportunityCandidate {
    /// Stable candidate id.
    pub id: String,
    /// Candidate summary.
    pub summary: String,
    /// Expected impact (0-100).
    pub impact: u16,
    /// Confidence in estimate (0-100).
    pub confidence: u16,
    /// Effort cost (1-100), lower is better.
    pub effort: u16,
}

impl Clone for OpportunityCandidate {
    fn clone(&self) -> (r: Self)
        ensures
            r == *self,
    {
        OpportunityCandidate {
            id: self.id.clone(),
            summary: self.summary.clone(),
            impact: self.impact,
            confidence: self.confidence,
            effort: self.effort,
        }
    }
}

/// A candidate as plain values: id, summary, impact, confidence, effort.
pub type CandidateView = (Seq<char>, Seq<char>, u16, u16, u16);

/// The plain values of a candidate.
pub open spec fn candidate_view(c: OpportunityCandidate) -> CandidateView {
    (c.id@, c.summary@, c.impact, c.confidence, c.effort)
}

/// The plain values of a sequence of candidates.
pub open spec fn candidates_view(s: Seq<OpportunityCandidate>) -> Seq<CandidateView> {
    s.map_values(|c: OpportunityCandidate| candidate_view(c))
}

/// ICE score in per-mille units: `impact * confidence * 1000 / effort`, with
/// an effort of zero counted as one.
pub open spec fn ice(c: CandidateView) -> int {
    let effort: int = if c.4 == 0 {
        1
    } else {
        c.4 as int
    };
    (c.2 * c.3 * 1000) / effort
}

/// The ICE product fits the `u32` the score is computed in.
pub open spec fn ice_fits(c: CandidateView) -> bool {
    c.2 * c.3 * 1000 <= u32::MAX
}

impl OpportunityCandidate {
    /// Deterministic ICE score in per-mille units.
    pub fn ice_score_per_mille(&self) -> (s: u32)
        requires
            ice_fits(candidate_view(*self)),
        ensures
            s == ice(candidate_view(*self)),
    {
        let effort: u16 = if self.effort == 0 {
            1
        } else {
            self.effort
        };
        let impact = self.impact as u32;
        let confidence = self.confidence as u32;
        assert(impact * confidence <= impact * confidence * 1000) by (nonlinear_arith);
        (impact * confidence * 1_000) / (effort as u32)
    }
}

/// Whether candidate `a` ranks strictly before `b`: higher ICE score, then
/// higher impact, higher confidence, lower effort, lower id.
pub open spec fn ranks_before(a: CandidateView, b: CandidateView) -> bool {
    if ice(a) != ice(b) {
        ice(a) > ice(b)
    } else if a.2 != b.2 {
        a.2 > b.2
    } else if a.3 != b.3 {
        a.3 > b.3
    } else if a.4 != b.4 {
        a.4 < b.4
    } else {
        seq_lt(a.0, b.0)
    }
}

/// Where a stable insertion puts `x` into a ranked sequence: before the first
/// candidate that `x` ranks strictly before.
pub open spec fn insertion_point(s: Seq<CandidateView>, x: CandidateView) -> int
    decreases s.len(),
{
    if s.len() == 0 {
        0
    } else if ranks_before(x, s[0]) {
        0
    } else {
        1 + insertion_point(s.drop_first(), x)
    }
}

/// The candidates in rank order: a stable sort by `ranks_before`.
pub open spec fn rank_order(s: Seq<CandidateView>) -> Seq<CandidateView>
    decreases s.len(),
{
    if s.len() == 0 {
        s
    } else {
        let r = rank_order(s.drop_last());
        r.insert(insertion_point(r, s.last()), s.last())
    }
}

proof fn lemma_insertion_point(s: Seq<CandidateView>, x: CandidateView, p: int)
    requires
        0 <= p <= s.len(),
        forall|k: int| 0 <= k < p ==> !ranks_before(x, #[trigger] s[k]),
        p < s.len() ==> ranks_before(x, s[p]),
    ensures
        insertion_point(s, x) == p,
    decreases p,
{
    if p > 0 {
        lemma_insertion_point(s.drop_first(), x, p - 1);
    }
}

proof fn lemma_ranks_before_trans(a: CandidateView, b: CandidateView, c: CandidateView)
    requires
        ranks_before(a, b),
        ranks_before(b, c),
    ensures
        ranks_before(a, c),
{
    if ice(a) == ice(b) && ice(b) == ice(c) && a.2 == b.2 && b.2 == c.2 && a.3 == b.3 && b.3 == c.3 && a.4
        == b.4 && b.4 == c.4 {
        lemma_seq_lt_trans(a.0, b.0, c.0);
    }
}

proof fn lemma_ranks_before_irreflexive(a: CandidateView)
    ensures
        !ranks_before(a, a),
{
    lemma_seq_lt_asym(a.0, a.0);
}

/// Whether no candidate ranks strictly before one that precedes it.
pub open spec fn rank_sorted(s: Seq<CandidateView>) -> bool {
    forall|i: int, j: int| 0 <= i < j < s.len() ==> !ranks_before(#[trigger] s[j], #[trigger] s[i])
}

proof fn lemma_insert_keeps_sorted(s: Seq<CandidateView>, x: CandidateView, p: int)
    requires
        rank_sorted(s),
        0 <= p <= s.len(),
        forall|k: int| 0 <= k < p ==> !ranks_before(x, #[trigger] s[k]),
        p < s.len() ==> ranks_before(x, s[p]),
    ensures
        rank_sorted(s.insert(p, x)),
{
    let t = s.insert(p, x);
    assert forall|i: int, j: int| 0 <= i < j < t.len() implies !ranks_before(#[trigger] t[j], #[trigger] t[i]) by {
        if i < p && j == p {
        } else if i < p && j > p {
            assert(t[i] == s[i] && t[j] == s[j - 1]);
        } else if i == p && j > p {
            assert(t[j] == s[j - 1]);
            if ranks_before(s[j - 1], x) {
                if j - 1 == p {
                    lemma_ranks_before_trans(x, s[p], x);
                    lemma_ranks_before_irreflexive(x);
                } else {
                    lemma_ranks_before_trans(s[j - 1], x, s[p]);
                }
            }
        } else if i > p {
            assert(t[i] == s[i - 1] && t[j] == s[j - 1]);
        } else {
            assert(t[i] == s[i] && t[j] == s[j]);
        }
    }
}

/// The rank order is sorted and holds exactly the input candidates.
pub proof fn law_rank_order_sorted_permutation(s: Seq<CandidateView>)
    ensures
        rank_sorted(rank_order(s)),
        rank_order(s).to_multiset() == s.to_multiset(),
        rank_order(s).len() == s.len(),
    decreases s.len(),
{
    if s.len() > 0 {
        let r = rank_order(s.drop_last());
        law_rank_order_sorted_permutation(s.drop_last());
        let x = s.last();
        let p = insertion_point(r, x);
        lemma_insertion_point_props(r, x);
        lemma_insert_keeps_sorted(r, x, p);
        assert(s.drop_last().push(x) =~= s);
    }
}

proof fn lemma_insertion_point_props(s: Seq<CandidateView>, x: CandidateView)
    ensures
        0 <= insertion_point(s, x) <= s.len(),
        forall|k: int| 0 <= k < insertion_point(s, x) ==> !ranks_before(x, #[trigger] s[k]),
        insertion_point(s, x) < s.len() ==> ranks_before(x, s[insertion_point(s, x)]),
    decreases s.len(),
{
    if s.len() > 0 && !ranks_before(x, s[0]) {
        lemma_insertion_point_props(s.drop_first(), x);
        assert forall|k: int| 0 <= k < insertion_point(s, x) implies !ranks_before(x, #[trigger] s[k]) by {
            if k > 0 {
                assert(s[k] == s.drop_first()[k - 1]);
            }
        }
    }
}

/// Opportunity scoring table for optimization planning.
#[derive(Debug, Clone, PartialEq, Eq)]
pub struct OpportunityMatrix {
    /// Contract schema version.
    pub schema_version: String,
    /// Candidate table.
    pub candidates: Vec<OpportunityCandidate>,
}

/// Ranked matrix row.
#[derive(Debug, Clone, PartialEq, Eq)]
pub struct RankedOpportunity {
    /// 1-based rank.
    pub rank: usize,
    /// ICE score in per-mille units.
    pub ice_score_per_mille: u32,
    /// Original candidate row.
    pub candidate: OpportunityCandidate,
}

/// Whether a ranking lists the candidates of `s` in rank order, numbered from 1.
pub open spec fn is_ranking_of(r: Seq<RankedOpportunity>, s: Seq<CandidateView>) -> bool {
    &&& r.len() == s.len()
    &&& forall|i: int|
        0 <= i < r.len() ==> {
            &&& candidate_view((#[trigger] r[i]).candidate) == rank_order(s)[i]
            &&& r[i].rank == i + 1
            &&& r[i].ice_score_per_mille == ice(rank_order(s)[i])
        }
}

/// Compute `ranks_before(a, b)`.
fn candidate_ranks_before(a: &OpportunityCandidate, ice_a: u32, b: &OpportunityCandidate, ice_b: u32) -> (r: bool)
    requires
        ice_a == ice(candidate_view(*a)),
        ice_b == ice(candidate_view(*b)),
    ensures
        r == ranks_before(candidate_view(*a), candidate_view(*b)),
{
    if ice_a != ice_b {
        ice_a > ice_b
    } else if a.impact != b.impact {
        a.impact > b.impact
    } else if a.confidence != b.confidence {
        a.confidence > b.confidence
    } else if a.effort != b.effort {
        a.effort < b.effort
    } else {
        str_compare(a.id.as_str(), b.id.as_str()) == -1
    }
}

impl OpportunityMatrix {
    /// Build a matrix from candidates.
    pub fn new(candidates: Vec<OpportunityCandidate>) -> (m: Self)
        ensures
            m.schema_version@ == OPPORTUNITY_MATRIX_SCHEMA_VERSION@,
            m.candidates == candidates,
    {
        OpportunityMatrix { schema_version: String::from_str(OPPORTUNITY_MATRIX_SCHEMA_VERSION), candidates }
    }

    /// Deterministically ranked candidates: ICE score descending, then impact
    /// descending, confidence descending, effort ascending, id ascending;
    /// candidates equal on all of these keep their order.
    pub fn ranked(&self) -> (r: Vec<RankedOpportunity>)
        requires
            forall|i: int| 0 <= i < self.candidates@.len() ==> ice_fits(candidate_view(#[trigger] self.candidates@[i])),
        ensures
            is_ranking_of(r@, candidates_view(self.candidates@)),
    {
        let ghost s = candidates_view(self.candidates@);
        // Stable insertion into the ranked prefix, scores alongside.
        let mut order: Vec<OpportunityCandidate> = Vec::new();
        let mut scores: Vec<u32> = Vec::new();
        let mut i: usize = 0;
        while i < self.candidates.len()
            invariant
                i <= s.len(),
                s == candidates_view(self.candidates@),
                forall|k: int| 0 <= k < s.len() ==> ice_fits(#[trigger] s[k]),
                candidates_view(order@) == rank_order(s.take(i as int)),
                scores@.len() == order@.len(),
                forall|k: int| 0 <= k < order@.len() ==> #[trigger] scores@[k] == ice(candidate_view(order@[k])),
            decreases s.len() - i,
        {
            let x = self.candidates[i].clone();
            assert(s[i as int] == candidate_view(x));
            let sx = x.ice_score_per_mille();
            let ghost ov = candidates_view(order@);
            let ghost xv = candidate_view(x);
            let mut p: usize = 0;
            while p < order.len() && !candidate_ranks_before(&x, sx, &order[p], scores[p])
                invariant
                    p <= order@.len(),
                    scores@.len() == order@.len(),
                    forall|k: int| 0 <= k < order@.len() ==> #[trigger] scores@[k] == ice(candidate_view(order@[k])),
                    ov == candidates_view(order@),
                    xv == candidate_view(x),
                    sx == ice(xv),
                    forall|k: int| 0 <= k < p ==> !ranks_before(xv, #[trigger] ov[k]),
                decreases order@.len() - p,
            {
                p = p + 1;
            }
            proof {
                if p < order@.len() {
                    assert(ov[p as int] == candidate_view(order@[p as int]));
                }
                lemma_insertion_point(ov, xv, p as int);
                assert(s.take(i + 1).drop_last() =~= s.take(i as int));
                assert(s.take(i + 1).last() == xv);
            }
            order.insert(p, x);
            scores.insert(p, sx);
            proof {
                assert(candidates_view(order@) =~= ov.insert(p as int, xv));
            }
            i = i + 1;
        }
        assert(s.take(s.len() as int) =~= s);
        let mut ranked: Vec<RankedOpportunity> = Vec::new();
        let mut k: usize = 0;
        while k < order.len()
            invariant
                k <= order@.len(),
                candidates_view(order@) == rank_order(s),
                scores@.len() == order@.len(),
                forall|j: int| 0 <= j < order@.len() ==> #[trigger] scores@[j] == ice(candidate_view(order@[j])),
                ranked@.len() == k,
                forall|j: int|
                    0 <= j < k ==> {
                        &&& candidate_view((#[trigger] ranked@[j]).candidate) == rank_order(s)[j]
                        &&& ranked@[j].rank == j + 1
                        &&& ranked@[j].ice_score_per_mille == ice(rank_order(s)[j])
                    },
            decreases order@.len() - k,
        {
            assert(candidates_view(order@)[k as int] == candidate_view(order@[k as int]));
            ranked.push(RankedOpportunity { rank: k + 1, ice_score_per_mille: scores[k], candidate: order[k].clone() });
            k = k + 1;
        }
        proof {
            law_rank_order_sorted_permutation(s);
        }
        ranked
    }
}

// ---------------------------------------------------------------------------
// Crawl/ingest optimization track
// ---------------------------------------------------------------------------
/// Canonical crawl/ingest stages used by the optimization track.
#[derive(Debug, Clone, Copy, PartialEq, Eq, PartialOrd, Ord, Hash, Structural)]
pub enum CrawlIngestStage {
    DiscoveryWalk,
    Classification,
    CatalogMutation,
    QueueAdmission,
    EmbeddingGate,
}

/// Ranked hotspot entry for the crawl/ingest path.
#[derive(Debug, Clone, PartialEq, Eq)]
pub struct CrawlIngestHotspot {
    /// 1-based rank derived from ICE score ordering.
    pub rank: usize,
    /// Stable optimization lever id.
    pub lever_id: String,
    /// Crawl/ingest stage targeted by this lever.
    pub stage: CrawlIngestStage,
    /// Human-readable optimization summary.
    pub summary: String,
    /// Expected p50 latency improvement percentage.
    pub expected_p50_gain_pct: u8,
    /// Expected p95 latency improvement percentage.
    pub expected_p95_gain_pct: u8,
    /// Expected ingest throughput improvement percentage.
    pub expected_throughput_gain_pct: u8,
}

/// Isomorphism proof checklist item for one optimization lever.
#[derive(Debug, Clone, PartialEq, Eq)]
pub struct IsomorphismProofChecklistItem {
    /// Optimization lever being validated.
    pub lever_id: String,
    /// Baseline behavior this lever must preserve.
    pub baseline_comparator: String,
    /// Explicit invariants that must remain true.
    pub required_invariants: Vec<String>,
    /// Deterministic replay command for triage/proof.
    pub replay_command: String,
}

/// Deterministic rollback guardrail for one optimization lever.
#[derive(Debug, Clone, PartialEq, Eq)]
pub struct RollbackGuardrail {
    /// Optimization lever protected by this guardrail.
    pub lever_id: String,
    /// Rollback command to execute when abort conditions are met.
    pub rollback_command: String,
    /// Reason codes that force rollback.
    pub abort_reason_codes: Vec<String>,
    /// Reason code expected after rollback succeeds.
    pub recovery_reason_code: String,
}

/// Complete crawl/ingest optimization track contract.
#[derive(Debug, Clone, PartialEq, Eq)]
pub struct CrawlIngestOptimizationTrack {
    /// Contract schema version.
    pub schema_version: String,
    /// Prioritized hotspot list with expected gains.
    pub hotspots: Vec<CrawlIngestHotspot>,
    /// Behavior-preserving proof checklist for every lever.
    pub proof_checklist: Vec<IsomorphismProofChecklistItem>,
    /// Rollback guardrails per optimization class.
    pub rollback_guardrails: Vec<RollbackGuardrail>,
}

/// The canonical crawl/ingest candidates.
pub open spec fn crawl_ingest_candidates() -> Seq<CandidateView> {
    seq![
        ("ingest.catalog.batch_upsert"@, "Batch catalog/changelog writes to reduce transaction overhead"@, 90u16, 90u16, 18u16),
        ("crawl.classification.policy_batching"@, "Classify discovery candidates in batched policy windows"@, 68u16, 78u16, 14u16),
        ("ingest.queue.lane_budget_admission"@, "Use lane-budget aware queue admission to reduce saturation churn"@, 74u16, 80u16, 16u16),
        ("crawl.discovery.path_metadata_cache"@, "Cache path metadata during crawl to cut repeated stat/syscall work"@, 82u16, 82u16, 20u16),
        ("ingest.embed_gate.early_skip"@, "Apply early embedding skip gates for low-signal candidates"@, 76u16, 88u16, 24u16),
    ]
}

fn candidate(id: &str, summary: &str, impact: u16, confidence: u16, effort: u16) -> (c: OpportunityCandidate)
    ensures
        candidate_view(c) == (id@, summary@, impact, confidence, effort),
{
    OpportunityCandidate { id: id.to_owned(), summary: summary.to_owned(), impact, confidence, effort }
}

/// Build the canonical crawl/ingest optimization opportunity matrix.
pub fn crawl_ingest_opportunity_matrix() -> (m: OpportunityMatrix)
    ensures
        m.schema_version@ == OPPORTUNITY_MATRIX_SCHEMA_VERSION@,
        candidates_view(m.candidates@) == crawl_ingest_candidates(),
{
    let candidates = vec![
        candidate(
            "ingest.catalog.batch_upsert",
            "Batch catalog/changelog writes to reduce transaction overhead",
            90,
            90,
            18,
        ),
        candidate(
            "crawl.classification.policy_batching",
            "Classify discovery candidates in batched policy windows",
            68,
            78,
            14,
        ),
        candidate(
            "ingest.queue.lane_budget_admission",
            "Use lane-budget aware queue admission to reduce saturation churn",
            74,
            80,
            16,
        ),
        candidate(
            "crawl.discovery.path_metadata_cache",
            "Cache path metadata during crawl to cut repeated stat/syscall work",
            82,
            82,
            20,
        ),
        candidate(
            "ingest.embed_gate.early_skip",
            "Apply early embedding skip gates for low-signal candidates",
            76,
            88,
            24,
        ),
    ];
    assert(candidates_view(candidates@) =~= crawl_ingest_candidates());
    OpportunityMatrix::new(candidates)
}

/// Stage and expected p50, p95 and throughput gains of a lever.
pub open spec fn expectations(lever_id: Seq<char>) -> (CrawlIngestStage, u8, u8, u8) {
    if lever_id == "ingest.catalog.batch_upsert"@ {
        (CrawlIngestStage::CatalogMutation, 16, 24, 20)
    } else if lever_id == "crawl.classification.policy_batching"@ {
        (CrawlIngestStage::Classification, 10, 16, 12)
    } else if lever_id == "ingest.queue.lane_budget_admission"@ {
        (CrawlIngestStage::QueueAdmission, 9, 14, 11)
    } else if lever_id == "crawl.discovery.path_metadata_cache"@ {
        (CrawlIngestStage::DiscoveryWalk, 8, 13, 10)
    } else if lever_id == "ingest.embed_gate.early_skip"@ {
        (CrawlIngestStage::EmbeddingGate, 7, 11, 9)
    } else {
        (CrawlIngestStage::DiscoveryWalk, 5, 8, 5)
    }
}

fn hotspot_expectations_for(lever_id: &str) -> (r: (CrawlIngestStage, u8, u8, u8))
    ensures
        r == expectations(lever_id@),
{
    if crate::text::str_eq(lever_id, "ingest.catalog.batch_upsert") {
        (CrawlIngestStage::CatalogMutation, 16, 24, 20)
    } else if crate::text::str_eq(lever_id, "crawl.classification.policy_batching") {
        (CrawlIngestStage::Classification, 10, 16, 12)
    } else if crate::text::str_eq(lever_id, "ingest.queue.lane_budget_admission") {
        (CrawlIngestStage::QueueAdmission, 9, 14, 11)
    } else if crate::text::str_eq(lever_id, "crawl.discovery.path_metadata_cache") {
        (CrawlIngestStage::DiscoveryWalk, 8, 13, 10)
    } else if crate::text::str_eq(lever_id, "ingest.embed_gate.early_skip") {
        (CrawlIngestStage::EmbeddingGate, 7, 11, 9)
    } else {
        (CrawlIngestStage::DiscoveryWalk, 5, 8, 5)
    }
}

/// The baseline behavior an optimization of `stage` must preserve.
pub open spec fn baseline_comparator(stage: CrawlIngestStage) -> Seq<char> {
    match stage {
        CrawlIngestStage::DiscoveryWalk => "baseline.crawl.discovery.sequential_walk"@,
        CrawlIngestStage::Classification => "baseline.crawl.classification.single_item"@,
        CrawlIngestStage::CatalogMutation => "baseline.ingest.catalog.single_upsert"@,
        CrawlIngestStage::QueueAdmission => "baseline.ingest.queue.global_fifo"@,
        CrawlIngestStage::EmbeddingGate => "baseline.ingest.embed.defer_after_index"@,
    }
}

fn baseline_comparator_for(stage: CrawlIngestStage) -> (s: &'static str)
    ensures
        s@ == baseline_comparator(stage),
{
    match stage {
        CrawlIngestStage::DiscoveryWalk => "baseline.crawl.discovery.sequential_walk",
        CrawlIngestStage::Classification => "baseline.crawl.classification.single_item",
        CrawlIngestStage::CatalogMutation => "baseline.ingest.catalog.single_upsert",
        CrawlIngestStage::QueueAdmission => "baseline.ingest.queue.global_fifo",
        CrawlIngestStage::EmbeddingGate => "baseline.ingest.embed.defer_after_index",
    }
}

/// The invariants an optimization of `stage` must keep.
pub open spec fn stage_invariants(stage: CrawlIngestStage) -> Seq<Seq<char>> {
    match stage {
        CrawlIngestStage::DiscoveryWalk => seq![
            "no path omission across mount boundaries"@,
            "path canonicalization remains deterministic"@,
            "discovery scope decisions are unchanged"@,
        ],
        CrawlIngestStage::Classification => seq![
            "ingestion_class assignment remains deterministic"@,
            "skip/index decisions preserve expected-loss ordering"@,
            "utility-score tie-break semantics remain unchanged"@,
        ],
        CrawlIngestStage::CatalogMutation => seq![
            "catalog revision monotonicity preserved"@,
            "changelog stream sequence monotonicity preserved"@,
            "idempotent upsert semantics preserved"@,
        ],
        CrawlIngestStage::QueueAdmission => seq![
            "lane budgets remain within configured hard limit"@,
            "backpressure transitions preserve reason-code semantics"@,
            "replay ordering remains monotonic"@,
        ],
        CrawlIngestStage::EmbeddingGate => seq![
            "semantic-vs-lexical gating follows discovery policy"@,
            "low-signal candidates remain explainable with reason codes"@,
            "degraded-mode transitions remain reversible"@,
        ],
    }
}

/// The views of a sequence of string slices.
pub open spec fn strs_view(v: Seq<&str>) -> Seq<Seq<char>> {
    v.map_values(|s: &str| s@)
}

fn three(a: &'static str, b: &'static str, c: &'static str) -> (v: Vec<String>)
    ensures
        crate::text::strings_view(v@) == seq![a@, b@, c@],
{
    let v = vec![a.to_owned(), b.to_owned(), c.to_owned()];
    assert(crate::text::strings_view(v@) =~= seq![a@, b@, c@]);
    v
}

fn invariants_for_stage(stage: CrawlIngestStage) -> (v: Vec<String>)
    ensures
        crate::text::strings_view(v@) == stage_invariants(stage),
{
    match stage {
        CrawlIngestStage::DiscoveryWalk => three(
            "no path omission across mount boundaries",
            "path canonicalization remains deterministic",
            "discovery scope decisions are unchanged",
        ),
        CrawlIngestStage::Classification => three(
            "ingestion_class assignment remains deterministic",
            "skip/index decisions preserve expected-loss ordering",
            "utility-score tie-break semantics remain unchanged",
        ),
        CrawlIngestStage::CatalogMutation => three(
            "catalog revision monotonicity preserved",
            "changelog stream sequence monotonicity preserved",
            "idempotent upsert semantics preserved",
        ),
        CrawlIngestStage::QueueAdmission => three(
            "lane budgets remain within configured hard limit",
            "backpressure transitions preserve reason-code semantics",
            "replay ordering remains monotonic",
        ),
        CrawlIngestStage::EmbeddingGate => three(
            "semantic-vs-lexical gating follows discovery policy",
            "low-signal candidates remain explainable with reason codes",
            "degraded-mode transitions remain reversible",
        ),
    }
}

/// The reason codes that force a rollback of an optimization of `stage`.
pub open spec fn abort_codes(stage: CrawlIngestStage) -> Seq<Seq<char>> {
    match stage {
        CrawlIngestStage::DiscoveryWalk => seq![
            "discovery.scope.regression"@,
            "discovery.path_omission_detected"@,
            "ingest.replay.sequence_gap"@,
        ],
        CrawlIngestStage::Classification => seq![
            "ingest.classification.regression"@,
            "ingest.expected_loss_violation"@,
            "ingest.explainability.missing_reason_code"@,
        ],
        CrawlIngestStage::CatalogMutation => seq![
            "ingest.catalog.revision_non_monotonic"@,
            "ingest.catalog.idempotency_violation"@,
            "ingest.catalog.changelog_gap"@,
        ],
        CrawlIngestStage::QueueAdmission => seq![
            "ingest.queue.starvation_detected"@,
            "ingest.backpressure.unbounded_growth"@,
            "ingest.replay.reordering_detected"@,
        ],
        CrawlIngestStage::EmbeddingGate => seq![
            "ingest.embed.skip_policy_regression"@,
            "ingest.degrade.transition_invalid"@,
            "ingest.embed.queue_loss_detected"@,
        ],
    }
}

fn rollback_abort_reason_codes(stage: CrawlIngestStage) -> (v: Vec<String>)
    ensures
        crate::text::strings_view(v@) == abort_codes(stage),
{
    match stage {
        CrawlIngestStage::DiscoveryWalk => three(
            "discovery.scope.regression",
            "discovery.path_omission_detected",
            "ingest.replay.sequence_gap",
        ),
        CrawlIngestStage::Classification => three(
            "ingest.classification.regression",
            "ingest.expected_loss_violation",
            "ingest.explainability.missing_reason_code",
        ),
        CrawlIngestStage::CatalogMutation => three(
            "ingest.catalog.revision_non_monotonic",
            "ingest.catalog.idempotency_violation",
            "ingest.catalog.changelog_gap",
        ),
        CrawlIngestStage::QueueAdmission => three(
            "ingest.queue.starvation_detected",
            "ingest.backpressure.unbounded_growth",
            "ingest.replay.reordering_detected",
        ),
        CrawlIngestStage::EmbeddingGate => three(
            "ingest.embed.skip_policy_regression",
            "ingest.degrade.transition_invalid",
            "ingest.embed.queue_loss_detected",
        ),
    }
}

/// Whether `h` is the hotspot at rank `i + 1` for candidate `c`.
pub open spec fn is_hotspot_for(h: CrawlIngestHotspot, i: int, c: CandidateView) -> bool {
    let (stage, p50, p95, throughput) = expectations(c.0);
    &&& h.rank == i + 1
    &&& h.lever_id@ == c.0
    &&& h.stage == stage
    &&& h.summary@ == c.1
    &&& h.expected_p50_gain_pct == p50
    &&& h.expected_p95_gain_pct == p95
    &&& h.expected_throughput_gain_pct == throughput
}

/// Whether `item` is the proof checklist item for lever `id`.
pub open spec fn is_checklist_for(item: IsomorphismProofChecklistItem, id: Seq<char>) -> bool {
    let stage = expectations(id).0;
    &&& item.lever_id@ == id
    &&& item.baseline_comparator@ == baseline_comparator(stage)
    &&& crate::text::strings_view(item.required_invariants@) == stage_invariants(stage)
    &&& item.replay_command@ == "fsfs profile replay --lane ingest --lever-id "@ + id + " --compare baseline"@
}

/// Whether `g` is the rollback guardrail for lever `id`.
pub open spec fn is_guardrail_for(g: RollbackGuardrail, id: Seq<char>) -> bool {
    let stage = expectations(id).0;
    &&& g.lever_id@ == id
    &&& g.rollback_command@ == "fsfs profile rollback --lever-id "@ + id + " --restore baseline"@
    &&& crate::text::strings_view(g.abort_reason_codes@) == abort_codes(stage)
    &&& g.recovery_reason_code@ == "opt.rollback.completed"@
}

/// Build the canonical crawl/ingest optimization track: the ranked hotspots
/// with their expected gains, and a proof checklist item and a rollback
/// guardrail per hotspot.
pub fn crawl_ingest_optimization_track() -> (t: CrawlIngestOptimizationTrack)
    ensures
        t.schema_version@ == CRAWL_INGEST_OPT_TRACK_SCHEMA_VERSION@,
        t.hotspots@.len() == crawl_ingest_candidates().len(),
        t.proof_checklist@.len() == t.hotspots@.len(),
        t.rollback_guardrails@.len() == t.hotspots@.len(),
        forall|i: int|
            0 <= i < t.hotspots@.len() ==> {
                &&& is_hotspot_for(#[trigger] t.hotspots@[i], i, rank_order(crawl_ingest_candidates())[i])
                &&& is_checklist_for(t.proof_checklist@[i], rank_order(crawl_ingest_candidates())[i].0)
                &&& is_guardrail_for(t.rollback_guardrails@[i], rank_order(crawl_ingest_candidates())[i].0)
            },
{
    let matrix = crawl_ingest_opportunity_matrix();
    let ghost cs = crawl_ingest_candidates();
    proof {
        assert forall|i: int| 0 <= i < cs.len() implies ice_fits(#[trigger] cs[i]) by {
            if i == 0 {
                assert(cs[0].2 == 90 && cs[0].3 == 90);
            } else if i == 1 {
                assert(cs[1].2 == 68 && cs[1].3 == 78);
            } else if i == 2 {
                assert(cs[2].2 == 74 && cs[2].3 == 80);
            } else if i == 3 {
                assert(cs[3].2 == 82 && cs[3].3 == 82);
            } else {
                assert(cs[4].2 == 76 && cs[4].3 == 88);
            }
        }
        assert forall|i: int| 0 <= i < matrix.candidates@.len() implies ice_fits(
            candidate_view(#[trigger] matrix.candidates@[i]),
        ) by {
            assert(candidates_view(matrix.candidates@)[i] == candidate_view(matrix.candidates@[i]));
            assert(ice_fits(cs[i]));
        }
        law_rank_order_sorted_permutation(cs);
    }
    let ranked = matrix.ranked();
    let mut hotspots: Vec<CrawlIngestHotspot> = Vec::new();
    let mut proof_checklist: Vec<IsomorphismProofChecklistItem> = Vec::new();
    let mut rollback_guardrails: Vec<RollbackGuardrail> = Vec::new();
    let mut i: usize = 0;
    while i < ranked.len()
        invariant
            i <= ranked@.len(),
            cs == crawl_ingest_candidates(),
            is_ranking_of(ranked@, cs),
            hotspots@.len() == i,
            proof_checklist@.len() == i,
            rollback_guardrails@.len() == i,
            forall|k: int|
                0 <= k < i ==> {
                    &&& is_hotspot_for(#[trigger] hotspots@[k], k, rank_order(cs)[k])
                    &&& is_checklist_for(proof_checklist@[k], rank_order(cs)[k].0)
                    &&& is_guardrail_for(rollback_guardrails@[k], rank_order(cs)[k].0)
                },
        decreases ranked@.len() - i,
    {
        let entry = &ranked[i];
        let id = entry.candidate.id.as_str();
        let (stage, p50, p95, throughput) = hotspot_expectations_for(id);
        hotspots.push(
            CrawlIngestHotspot {
                rank: entry.rank,
                lever_id: entry.candidate.id.clone(),
                stage,
                summary: entry.candidate.summary.clone(),
                expected_p50_gain_pct: p50,
                expected_p95_gain_pct: p95,
                expected_throughput_gain_pct: throughput,
            },
        );
        proof_checklist.push(
            IsomorphismProofChecklistItem {
                lever_id: entry.candidate.id.clone(),
                baseline_comparator: String::from_str(baseline_comparator_for(stage)),
                required_invariants: invariants_for_stage(stage),
                replay_command: surround(
                    "fsfs profile replay --lane ingest --lever-id ",
                    id,
                    " --compare baseline",
                ),
            },
        );
        rollback_guardrails.push(
            RollbackGuardrail {
                lever_id: entry.candidate.id.clone(),
                rollback_command: surround("fsfs profile rollback --lever-id ", id, " --restore baseline"),
                abort_reason_codes: rollback_abort_reason_codes(stage),
                recovery_reason_code: String::from_str("opt.rollback.completed"),
            },
        );
        i = i + 1;
    }
    CrawlIngestOptimizationTrack {
        schema_version: String::from_str(CRAWL_INGEST_OPT_TRACK_SCHEMA_VERSION),
        hotspots,
        proof_checklist,
        rollback_guardrails,
    }
}

// ---------------------------------------------------------------------------
// One-lever iteration protocol
// ---------------------------------------------------------------------------
/// The map an ordered list of name/value pairs builds: later pairs win.
pub open spec fn pairs_map(s: Seq<(&str, &str)>) -> Map<Seq<char>, Seq<char>>
    decreases s.len(),
{
    if s.len() == 0 {
        Map::empty()
    } else {
        pairs_map(s.drop_last()).insert(s.last().0@, s.last().1@)
    }
}

/// The map a list of name/value entries holds.
pub open spec fn entries_map(s: Seq<(String, String)>) -> Map<Seq<char>, Seq<char>>
    decreases s.len(),
{
    if s.len() == 0 {
        Map::empty()
    } else {
        entries_map(s.drop_last()).insert(s.last().0@, s.last().1@)
    }
}

/// Entry names in strictly increasing order.
pub open spec fn names_sorted(s: Seq<(String, String)>) -> bool {
    forall|i: int, j: int| 0 <= i < j < s.len() ==> seq_lt((#[trigger] s[i]).0@, (#[trigger] s[j]).0@)
}

proof fn lemma_entries_map(s: Seq<(String, String)>)
    requires
        names_sorted(s),
    ensures
        forall|k: Seq<char>| #[trigger] entries_map(s).contains_key(k) <==> exists|i: int| 0 <= i < s.len() && s[i].0@ == k,
        forall|i: int| 0 <= i < s.len() ==> entries_map(s)[(#[trigger] s[i]).0@] == s[i].1@,
    decreases s.len(),
{
    if s.len() > 0 {
        let p = s.drop_last();
        assert forall|i: int, j: int| 0 <= i < j < p.len() implies seq_lt((#[trigger] p[i]).0@, (#[trigger] p[j]).0@) by {
            assert(p[i] == s[i] && p[j] == s[j]);
        }
        lemma_entries_map(p);
        assert forall|k: Seq<char>| #[trigger] entries_map(s).contains_key(k) <==> exists|i: int| 0 <= i < s.len() && s[i].0@ == k by {
            if entries_map(s).contains_key(k) && k != s.last().0@ {
                assert(entries_map(p).contains_key(k));
                let i = choose|i: int| 0 <= i < p.len() && p[i].0@ == k;
                assert(s[i] == p[i]);
            }
            if entries_map(s).contains_key(k) && k == s.last().0@ {
                assert(s[s.len() - 1].0@ == k);
            }
            if exists|i: int| 0 <= i < s.len() && s[i].0@ == k {
                let i = choose|i: int| 0 <= i < s.len() && s[i].0@ == k;
                if i < s.len() - 1 {
                    assert(p[i] == s[i]);
                    assert(entries_map(p).contains_key(k));
                }
            }
        }
        assert forall|i: int| 0 <= i < s.len() implies entries_map(s)[(#[trigger] s[i]).0@] == s[i].1@ by {
            if i < s.len() - 1 {
                assert(p[i] == s[i]);
                assert(seq_lt(s[i].0@, s[s.len() - 1].0@));
                lemma_seq_lt_asym(s[i].0@, s[i].0@);
            }
        }
    }
}

/// Snapshot of tuning levers for a single optimization iteration.
#[derive(Debug, PartialEq, Eq)]
pub struct LeverSnapshot {
    values: Vec<(String, String)>,
}

impl View for LeverSnapshot {
    type V = Map<Seq<char>, Seq<char>>;

    closed spec fn view(&self) -> Map<Seq<char>, Seq<char>> {
        entries_map(self.values@)
    }
}

/// The value of `k` in `m`, if any.
pub open spec fn lookup(m: Map<Seq<char>, Seq<char>>, k: Seq<char>) -> Option<Seq<char>> {
    if m.contains_key(k) {
        Some(m[k])
    } else {
        None
    }
}

/// The lever names whose values differ between two snapshots (present in
/// one only, or with different values).
pub open spec fn changed_names(a: Map<Seq<char>, Seq<char>>, b: Map<Seq<char>, Seq<char>>) -> Set<Seq<char>> {
    Set::new(|k: Seq<char>| lookup(a, k) != lookup(b, k))
}

impl LeverSnapshot {
    #[verifier::type_invariant]
    spec fn ordered(self) -> bool {
        names_sorted(self.values@)
    }

    /// Build a snapshot from name/value pairs; a later pair for the same name
    /// overrides an earlier one.
    pub fn from_pairs(pairs: &[(&str, &str)]) -> (r: Self)
        ensures
            r@ == pairs_map(pairs@),
    {
        let mut values: Vec<(String, String)> = Vec::new();
        let mut i: usize = 0;
        while i < pairs.len()
            invariant
                i <= pairs@.len(),
                names_sorted(values@),
                entries_map(values@) == pairs_map(pairs@.take(i as int)),
            decreases pairs@.len() - i,
        {
            let (name, value) = pairs[i];
            proof {
                assert(pairs@.take(i + 1).drop_last() =~= pairs@.take(i as int));
                assert(pairs@.take(i + 1).last() == pairs@[i as int]);
                lemma_entries_map(values@);
            }
            let ghost old_values = values@;
            let mut p: usize = 0;
            while p < values.len() && str_compare(values[p].0.as_str(), name) == -1
                invariant
                    p <= values@.len(),
                    values@ == old_values,
                    forall|k: int| 0 <= k < p ==> seq_lt((#[trigger] values@[k]).0@, name@),
                decreases values@.len() - p,
            {
                p = p + 1;
            }
            let found = p < values.len() && crate::text::str_eq(values[p].0.as_str(), name);
            proof {
                if p < values@.len() && !found {
                    crate::text::lemma_seq_lt_total(values@[p as int].0@, name@);
                    assert(seq_lt(name@, values@[p as int].0@));
                    assert forall|k: int| p <= k < values@.len() implies seq_lt(name@, (#[trigger] values@[k]).0@) by {
                        if k > p {
                            lemma_seq_lt_trans(name@, values@[p as int].0@, values@[k].0@);
                        }
                    }
                }
            }
            let ghost m_old = entries_map(old_values);
            if found {
                values.set(p, (name.to_owned(), value.to_owned()));
                proof {
                    assert(old_values[p as int].0@ == name@);
                    assert forall|a: int, b: int| 0 <= a < b < values@.len() implies seq_lt(
                        (#[trigger] values@[a]).0@,
                        (#[trigger] values@[b]).0@,
                    ) by {
                        assert(seq_lt(old_values[a].0@, old_values[b].0@));
                    }
                    lemma_entries_map(values@);
                    assert(entries_map(values@) =~= m_old.insert(name@, value@)) by {
                        assert forall|k: Seq<char>| #[trigger] entries_map(values@).contains_key(k) <==> m_old.insert(
                            name@,
                            value@,
                        ).contains_key(k) by {
                            if exists|j: int| 0 <= j < values@.len() && values@[j].0@ == k {
                                let j = choose|j: int| 0 <= j < values@.len() && values@[j].0@ == k;
                                if j != p {
                                    assert(old_values[j].0@ == k);
                                }
                            }
                            if exists|j: int| 0 <= j < old_values.len() && old_values[j].0@ == k {
                                let j = choose|j: int| 0 <= j < old_values.len() && old_values[j].0@ == k;
                                assert(values@[j].0@ == k);
                            }
                        }
                        assert forall|k: Seq<char>| #[trigger] entries_map(values@).contains_key(k) implies entries_map(
                            values@,
                        )[k] == m_old.insert(name@, value@)[k] by {
                            let j = choose|j: int| 0 <= j < values@.len() && values@[j].0@ == k;
                            assert(entries_map(values@)[values@[j].0@] == values@[j].1@);
                            if j != p {
                                assert(m_old[old_values[j].0@] == old_values[j].1@);
                            }
                        }
                    }
                }
            } else {
                values.insert(p, (name.to_owned(), value.to_owned()));
                proof {
                    assert forall|a: int, b: int| 0 <= a < b < values@.len() implies seq_lt(
                        (#[trigger] values@[a]).0@,
                        (#[trigger] values@[b]).0@,
                    ) by {
                        if b < p {
                            assert(seq_lt(old_values[a].0@, old_values[b].0@));
                        } else if b == p {
                        } else if a < p {
                            assert(values@[b] == old_values[b - 1]);
                            lemma_seq_lt_trans(values@[a].0@, name@, values@[b].0@);
                        } else if a == p {
                            assert(values@[b] == old_values[b - 1]);
                        } else {
                            assert(values@[a] == old_values[a - 1] && values@[b] == old_values[b - 1]);
                            assert(seq_lt(old_values[a - 1].0@, old_values[b - 1].0@));
                        }
                    }
                    lemma_entries_map(values@);
                    assert forall|j: int| 0 <= j < old_values.len() implies (#[trigger] old_values[j]).0@ != name@ by {
                        if j < p {
                            lemma_seq_lt_asym(name@, name@);
                        } else {
                            lemma_seq_lt_asym(name@, name@);
                        }
                    }
                    assert(entries_map(values@) =~= m_old.insert(name@, value@)) by {
                        assert forall|k: Seq<char>| #[trigger] entries_map(values@).contains_key(k) <==> m_old.insert(
                            name@,
                            value@,
                        ).contains_key(k) by {
                            if exists|j: int| 0 <= j < values@.len() && values@[j].0@ == k {
                                let j = choose|j: int| 0 <= j < values@.len() && values@[j].0@ == k;
                                if j < p {
                                    assert(old_values[j].0@ == k);
                                } else if j > p {
                                    assert(old_values[j - 1].0@ == k);
                                }
                            }
                            if exists|j: int| 0 <= j < old_values.len() && old_values[j].0@ == k {
                                let j = choose|j: int| 0 <= j < old_values.len() && old_values[j].0@ == k;
                                if j < p {
                                    assert(values@[j].0@ == k);
                                } else {
                                    assert(values@[j + 1].0@ == k);
                                }
                            }
                            if k == name@ {
                                assert(values@[p as int].0@ == k);
                            }
                        }
                        assert forall|k: Seq<char>| #[trigger] entries_map(values@).contains_key(k) implies entries_map(
                            values@,
                        )[k] == m_old.insert(name@, value@)[k] by {
                            let j = choose|j: int| 0 <= j < values@.len() && values@[j].0@ == k;
                            assert(entries_map(values@)[values@[j].0@] == values@[j].1@);
                            if j < p {
                                assert(m_old[old_values[j].0@] == old_values[j].1@);
                            } else if j > p {
                                assert(m_old[old_values[j - 1].0@] == old_values[j - 1].1@);
                            }
                        }
                    }
                }
            }
            i = i + 1;
        }
        assert(pairs@.take(pairs@.len() as int) =~= pairs@);
        LeverSnapshot { values }
    }

    /// The name/value entries in increasing name order.
    pub fn entries(&self) -> (e: &Vec<(String, String)>)
        ensures
            entries_map(e@) == self@,
            names_sorted(e@),
    {
        proof {
            use_type_invariant(self);
        }
        &self.values
    }

    /// The names whose values differ from `other`, in increasing order.
    fn changed_levers(&self, other: &Self) -> (out: Vec<String>)
        ensures
            crate::text::strictly_sorted(crate::text::strings_view(out@)),
            crate::text::strings_view(out@).to_set() == changed_names(self@, other@),
    {
        proof {
            use_type_invariant(self);
            use_type_invariant(other);
        }
        let a = &self.values;
        let b = &other.values;
        proof {
            lemma_entries_map(a@);
            lemma_entries_map(b@);
        }
        let ghost changed = changed_names(self@, other@);
        let mut out: Vec<String> = Vec::new();
        let ghost mut ov: Seq<Seq<char>> = Seq::empty();
        let mut i: usize = 0;
        let mut j: usize = 0;
        while i < a.len() || j < b.len()
            invariant
                i <= a@.len(),
                j <= b@.len(),
                names_sorted(a@),
                names_sorted(b@),
                self@ == entries_map(a@),
                other@ == entries_map(b@),
                changed == changed_names(self@, other@),
                forall|k: Seq<char>| #[trigger] entries_map(a@).contains_key(k) <==> exists|x: int| 0 <= x < a@.len() && a@[x].0@ == k,
                forall|x: int| 0 <= x < a@.len() ==> entries_map(a@)[(#[trigger] a@[x]).0@] == a@[x].1@,
                forall|k: Seq<char>| #[trigger] entries_map(b@).contains_key(k) <==> exists|x: int| 0 <= x < b@.len() && b@[x].0@ == k,
                forall|x: int| 0 <= x < b@.len() ==> entries_map(b@)[(#[trigger] b@[x]).0@] == b@[x].1@,
                ov == crate::text::strings_view(out@),
                crate::text::strictly_sorted(ov),
                forall|x: int, y: int| 0 <= x < i && j <= y < b@.len() ==> seq_lt((#[trigger] a@[x]).0@, (#[trigger] b@[y]).0@),
                forall|x: int, y: int| 0 <= x < j && i <= y < a@.len() ==> seq_lt((#[trigger] b@[x]).0@, (#[trigger] a@[y]).0@),
                forall|o: int, y: int| 0 <= o < ov.len() && i <= y < a@.len() ==> seq_lt(#[trigger] ov[o], (#[trigger] a@[y]).0@),
                forall|o: int, y: int| 0 <= o < ov.len() && j <= y < b@.len() ==> seq_lt(#[trigger] ov[o], (#[trigger] b@[y]).0@),
                forall|o: int| 0 <= o < ov.len() ==> changed.contains(#[trigger] ov[o]),
                forall|x: int| 0 <= x < i && changed.contains((#[trigger] a@[x]).0@) ==> ov.contains(a@[x].0@),
                forall|x: int| 0 <= x < j && changed.contains((#[trigger] b@[x]).0@) ==> ov.contains(b@[x].0@),
            decreases a@.len() + b@.len() - i - j,
        {
            // 0: the name at `i` is only in `a`; 1: the same name is next in
            // both; 2: the name at `j` is only in `b`.
            let side: u8 = if j >= b.len() {
                0
            } else if i >= a.len() {
                2
            } else {
                let c = str_compare(a[i].0.as_str(), b[j].0.as_str());
                if c == -1 {
                    0
                } else if c == 0 {
                    1
                } else {
                    2
                }
            };
            let ghost ov0 = ov;
            if side == 0 {
                let ghost k = a@[i as int].0@;
                proof {
                    assert forall|y: int| j <= y < b@.len() implies seq_lt(k, (#[trigger] b@[y]).0@) by {
                        if y > j {
                            lemma_seq_lt_trans(k, b@[j as int].0@, b@[y].0@);
                        }
                    }
                    assert(!entries_map(b@).contains_key(k)) by {
                        if entries_map(b@).contains_key(k) {
                            let y = choose|y: int| 0 <= y < b@.len() && b@[y].0@ == k;
                            if y < j {
                                assert(seq_lt(b@[y].0@, a@[i as int].0@));
                            }
                            lemma_seq_lt_asym(k, k);
                        }
                    }
                    assert(entries_map(a@).contains_key(k));
                    assert(changed.contains(k));
                }
                out.push(a[i].0.clone());
                proof {
                    ov = ov0.push(k);
                    assert(crate::text::strings_view(out@) =~= ov);
                    assert(ov[ov.len() - 1] == k);
                    assert forall|o: int, y: int| 0 <= o < ov.len() && i + 1 <= y < a@.len() implies seq_lt(
                        #[trigger] ov[o],
                        (#[trigger] a@[y]).0@,
                    ) by {
                        if o < ov0.len() {
                            assert(ov[o] == ov0[o]);
                        }
                    }
                    assert forall|o: int, y: int| 0 <= o < ov.len() && j <= y < b@.len() implies seq_lt(
                        #[trigger] ov[o],
                        (#[trigger] b@[y]).0@,
                    ) by {
                        if o < ov0.len() {
                            assert(ov[o] == ov0[o]);
                        }
                    }
                    assert forall|x: int| 0 <= x < i + 1 && changed.contains((#[trigger] a@[x]).0@) implies ov.contains(a@[x].0@) by {
                        if x < i {
                            let o = choose|o: int| 0 <= o < ov0.len() && ov0[o] == a@[x].0@;
                            assert(ov[o] == ov0[o]);
                        }
                    }
                    assert forall|x: int| 0 <= x < j && changed.contains((#[trigger] b@[x]).0@) implies ov.contains(b@[x].0@) by {
                        let o = choose|o: int| 0 <= o < ov0.len() && ov0[o] == b@[x].0@;
                        assert(ov[o] == ov0[o]);
                    }
                    assert forall|o: int| 0 <= o < ov.len() implies changed.contains(#[trigger] ov[o]) by {
                        if o < ov0.len() {
                            assert(ov[o] == ov0[o]);
                        }
                    }
                    assert forall|x: int, y: int| 0 <= x < y < ov.len() implies seq_lt(#[trigger] ov[x], #[trigger] ov[y]) by {
                        assert(ov[x] == ov0[x]);
                        if y < ov0.len() {
                            assert(ov[y] == ov0[y]);
                        }
                    }
                }
                i = i + 1;
            } else if side == 2 {
                let ghost k = b@[j as int].0@;
                proof {
                    assert forall|y: int| i <= y < a@.len() implies seq_lt(k, (#[trigger] a@[y]).0@) by {
                        if y > i {
                            lemma_seq_lt_trans(k, a@[i as int].0@, a@[y].0@);
                        }
                    }
                    assert(!entries_map(a@).contains_key(k)) by {
                        if entries_map(a@).contains_key(k) {
                            let y = choose|y: int| 0 <= y < a@.len() && a@[y].0@ == k;
                            if y < i {
                                assert(seq_lt(a@[y].0@, b@[j as int].0@));
                            }
                            lemma_seq_lt_asym(k, k);
                        }
                    }
                    assert(entries_map(b@).contains_key(k));
                    assert(changed.contains(k));
                }
                out.push(b[j].0.clone());
                proof {
                    ov = ov0.push(k);
                    assert(crate::text::strings_view(out@) =~= ov);
                    assert(ov[ov.len() - 1] == k);
                    assert forall|o: int, y: int| 0 <= o < ov.len() && i <= y < a@.len() implies seq_lt(
                        #[trigger] ov[o],
                        (#[trigger] a@[y]).0@,
                    ) by {
                        if o < ov0.len() {
                            assert(ov[o] == ov0[o]);
                        }
                    }
                    assert forall|o: int, y: int| 0 <= o < ov.len() && j + 1 <= y < b@.len() implies seq_lt(
                        #[trigger] ov[o],
                        (#[trigger] b@[y]).0@,
                    ) by {
                        if o < ov0.len() {
                            assert(ov[o] == ov0[o]);
                        }
                    }
                    assert forall|x: int| 0 <= x < i && changed.contains((#[trigger] a@[x]).0@) implies ov.contains(a@[x].0@) by {
                        let o = choose|o: int| 0 <= o < ov0.len() && ov0[o] == a@[x].0@;
                        assert(ov[o] == ov0[o]);
                    }
                    assert forall|x: int| 0 <= x < j + 1 && changed.contains((#[trigger] b@[x]).0@) implies ov.contains(b@[x].0@) by {
                        if x < j {
                            let o = choose|o: int| 0 <= o < ov0.len() && ov0[o] == b@[x].0@;
                            assert(ov[o] == ov0[o]);
                        }
                    }
                    assert forall|o: int| 0 <= o < ov.len() implies changed.contains(#[trigger] ov[o]) by {
                        if o < ov0.len() {
                            assert(ov[o] == ov0[o]);
                        }
                    }
                    assert forall|x: int, y: int| 0 <= x < y < ov.len() implies seq_lt(#[trigger] ov[x], #[trigger] ov[y]) by {
                        assert(ov[x] == ov0[x]);
                        if y < ov0.len() {
                            assert(ov[y] == ov0[y]);
                        }
                    }
                }
                j = j + 1;
            } else {
                let ghost k = a@[i as int].0@;
                let differs = !crate::text::str_eq(a[i].1.as_str(), b[j].1.as_str());
                proof {
                    assert(b@[j as int].0@ == k);
                    assert(entries_map(a@)[k] == a@[i as int].1@);
                    assert(entries_map(b@)[k] == b@[j as int].1@);
                    assert(entries_map(a@).contains_key(k));
                    assert(entries_map(b@).contains_key(k));
                    assert(changed.contains(k) == differs);
                }
                if differs {
                    out.push(a[i].0.clone());
                    proof {
                        ov = ov0.push(k);
                        assert(crate::text::strings_view(out@) =~= ov);
                        assert(ov[ov.len() - 1] == k);
                    }
                }
                proof {
                    assert forall|o: int, y: int| 0 <= o < ov.len() && i + 1 <= y < a@.len() implies seq_lt(
                        #[trigger] ov[o],
                        (#[trigger] a@[y]).0@,
                    ) by {
                        if o < ov0.len() {
                            assert(ov[o] == ov0[o]);
                        }
                    }
                    assert forall|o: int, y: int| 0 <= o < ov.len() && j + 1 <= y < b@.len() implies seq_lt(
                        #[trigger] ov[o],
                        (#[trigger] b@[y]).0@,
                    ) by {
                        if o < ov0.len() {
                            assert(ov[o] == ov0[o]);
                        }
                    }
                    assert forall|x: int, y: int| 0 <= x < i + 1 && j + 1 <= y < b@.len() implies seq_lt(
                        (#[trigger] a@[x]).0@,
                        (#[trigger] b@[y]).0@,
                    ) by {
                        if x == i {
                            assert(seq_lt(b@[j as int].0@, b@[y].0@));
                        }
                    }
                    assert forall|x: int, y: int| 0 <= x < j + 1 && i + 1 <= y < a@.len() implies seq_lt(
                        (#[trigger] b@[x]).0@,
                        (#[trigger] a@[y]).0@,
                    ) by {
                        if x == j {
                            assert(seq_lt(a@[i as int].0@, a@[y].0@));
                        }
                    }
                    assert forall|x: int| 0 <= x < i + 1 && changed.contains((#[trigger] a@[x]).0@) implies ov.contains(a@[x].0@) by {
                        if x < i {
                            let o = choose|o: int| 0 <= o < ov0.len() && ov0[o] == a@[x].0@;
                            assert(ov[o] == ov0[o]);
                        }
                    }
                    assert forall|x: int| 0 <= x < j + 1 && changed.contains((#[trigger] b@[x]).0@) implies ov.contains(b@[x].0@) by {
                        if x < j {
                            let o = choose|o: int| 0 <= o < ov0.len() && ov0[o] == b@[x].0@;
                            assert(ov[o] == ov0[o]);
                        }
                    }
                    assert forall|o: int| 0 <= o < ov.len() implies changed.contains(#[trigger] ov[o]) by {
                        if o < ov0.len() {
                            assert(ov[o] == ov0[o]);
                        }
                    }
                    assert forall|x: int, y: int| 0 <= x < y < ov.len() implies seq_lt(#[trigger] ov[x], #[trigger] ov[y]) by {
                        assert(ov[x] == ov0[x]);
                        if y < ov0.len() {
                            assert(ov[y] == ov0[y]);
                        }
                    }
                }
                i = i + 1;
                j = j + 1;
            }
        }
        proof {
            assert forall|k: Seq<char>| ov.to_set().contains(k) <==> changed.contains(k) by {
                if ov.to_set().contains(k) {
                    let o = choose|o: int| 0 <= o < ov.len() && ov[o] == k;
                    assert(changed.contains(ov[o]));
                }
                if changed.contains(k) {
                    assert(lookup(self@, k) != lookup(other@, k));
                    if entries_map(a@).contains_key(k) {
                        let x = choose|x: int| 0 <= x < a@.len() && a@[x].0@ == k;
                        assert(ov.contains(a@[x].0@));
                    } else {
                        assert(entries_map(b@).contains_key(k));
                        let x = choose|x: int| 0 <= x < b@.len() && b@[x].0@ == k;
                        assert(ov.contains(b@[x].0@));
                    }
                }
            }
            assert(ov.to_set() =~= changed);
        }
        out
    }
}

/// Validation result for a one-lever optimization transition.
#[derive(Debug, Clone, PartialEq, Eq)]
pub struct IterationValidation {
    /// Whether the transition is accepted by protocol.
    pub accepted: bool,
    /// Sorted list of changed levers.
    pub changed_levers: Vec<String>,
    /// Machine-readable reason code.
    pub reason_code: String,
}

/// Enforces one-lever-at-a-time optimization discipline.
#[derive(Debug, Clone, Copy, PartialEq, Eq, Default)]
pub struct OneLeverIterationProtocol;

impl OneLeverIterationProtocol {
    /// Validate that exactly one lever changed from `baseline` to `candidate`.
    pub fn validate(baseline: &LeverSnapshot, candidate: &LeverSnapshot) -> (v: IterationValidation)
        ensures
            validation_of(baseline@, candidate@, v),
    {
        let changed_levers = baseline.changed_levers(candidate);
        let n = changed_levers.len();
        let (accepted, reason_code) = if n == 1 {
            (true, ITERATION_REASON_ACCEPTED)
        } else if n == 0 {
            (false, ITERATION_REASON_NO_CHANGE)
        } else {
            (false, ITERATION_REASON_MULTI_CHANGE)
        };
        IterationValidation { accepted, changed_levers, reason_code: String::from_str(reason_code) }
    }
}

/// What validating an iteration from `baseline` to `candidate` gives: the
/// changed lever names listed in strictly ascending order, accepted exactly
/// when one lever changed, with the matching reason code.
pub open spec fn validation_of(
    baseline: Map<Seq<char>, Seq<char>>,
    candidate: Map<Seq<char>, Seq<char>>,
    v: IterationValidation,
) -> bool {
    &&& crate::text::strictly_sorted(crate::text::strings_view(v.changed_levers@))
    &&& crate::text::strings_view(v.changed_levers@).to_set() == changed_names(baseline, candidate)
    &&& v.accepted == (v.changed_levers@.len() == 1)
    &&& v.reason_code@ == (if v.changed_levers@.len() == 1 {
        ITERATION_REASON_ACCEPTED@
    } else if v.changed_levers@.len() == 0 {
        ITERATION_REASON_NO_CHANGE@
    } else {
        ITERATION_REASON_MULTI_CHANGE@
    })
}

proof fn lemma_strictly_sorted_no_duplicates(listing: Seq<Seq<char>>)
    requires
        crate::text::strictly_sorted(listing),
    ensures
        listing.no_duplicates(),
{
    assert forall|x: int, y: int| 0 <= x < listing.len() && 0 <= y < listing.len() && x != y implies listing[x]
        != listing[y] by {
        if x < y {
            assert(seq_lt(listing[x], listing[y]));
            lemma_seq_lt_asym(listing[x], listing[x]);
        } else {
            assert(seq_lt(listing[y], listing[x]));
            lemma_seq_lt_asym(listing[y], listing[y]);
        }
    }
}

/// Validating an iteration does not depend on which snapshot is taken as the
/// baseline: validating `a` against `b` and `b` against `a` list the same
/// changed levers and reach the same verdict and reason.
pub proof fn law_validate_symmetric(
    a: Map<Seq<char>, Seq<char>>,
    b: Map<Seq<char>, Seq<char>>,
    ab: IterationValidation,
    ba: IterationValidation,
)
    requires
        validation_of(a, b, ab),
        validation_of(b, a, ba),
    ensures
        crate::text::strings_view(ab.changed_levers@) == crate::text::strings_view(ba.changed_levers@),
        ab.accepted == ba.accepted,
        ab.reason_code@ == ba.reason_code@,
{
    law_changed_names_symmetric(a, b);
    let x = crate::text::strings_view(ab.changed_levers@);
    let y = crate::text::strings_view(ba.changed_levers@);
    lemma_strictly_sorted_no_duplicates(x);
    lemma_strictly_sorted_no_duplicates(y);
    crate::repair::lemma_sorted_listing_unique(x, y);
    assert(ab.changed_levers@.len() == x.len());
    assert(ba.changed_levers@.len() == y.len());
}

/// A lever changed between two snapshots exactly when it changed the other
/// way round; comparing a snapshot with itself changes nothing.
pub proof fn law_changed_names_symmetric(a: Map<Seq<char>, Seq<char>>, b: Map<Seq<char>, Seq<char>>)
    ensures
        changed_names(a, b) == changed_names(b, a),
        changed_names(a, a) == Set::<Seq<char>>::empty(),
{
    assert(changed_names(a, b) =~= changed_names(b, a));
    assert(changed_names(a, a) =~= Set::<Seq<char>>::empty());
}

/// A strictly sorted listing has as many entries as names, so an iteration is
/// accepted exactly when one lever name changed.
pub proof fn law_accepted_iff_one_change(listing: Seq<Seq<char>>)
    requires
        crate::text::strictly_sorted(listing),
    ensures
        listing.to_set().len() == listing.len(),
        (listing.len() == 1) == (listing.to_set().len() == 1),
{
    lemma_strictly_sorted_no_duplicates(listing);
    listing.unique_seq_to_set();
}


/// The ranking puts higher ICE scores first; among equal scores, higher
/// impact first; then higher confidence; then lower effort.
pub proof fn law_ranking_order(s: Seq<CandidateView>)
    ensures
        forall|i: int, j: int|
            0 <= i < j < rank_order(s).len() ==> {
                let a = #[trigger] rank_order(s)[i];
                let b = #[trigger] rank_order(s)[j];
                &&& ice(a) >= ice(b)
                &&& ice(a) == ice(b) ==> a.2 >= b.2
                &&& ice(a) == ice(b) && a.2 == b.2 ==> a.3 >= b.3
                &&& ice(a) == ice(b) && a.2 == b.2 && a.3 == b.3 ==> a.4 <= b.4
            },
{
    law_rank_order_sorted_permutation(s);
    assert forall|i: int, j: int| 0 <= i < j < rank_order(s).len() implies {
        let a = #[trigger] rank_order(s)[i];
        let b = #[trigger] rank_order(s)[j];
        &&& ice(a) >= ice(b)
        &&& ice(a) == ice(b) ==> a.2 >= b.2
        &&& ice(a) == ice(b) && a.2 == b.2 ==> a.3 >= b.3
        &&& ice(a) == ice(b) && a.2 == b.2 && a.3 == b.3 ==> a.4 <= b.4
    } by {
        assert(!ranks_before(rank_order(s)[j], rank_order(s)[i]));
    }
}

} // verus!
