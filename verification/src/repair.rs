//! Repair orchestration and degraded-mode routing.
//!
//! When artifact corruption is detected, the [`RepairOrchestrator`] logs it,
//! tracks which artifacts remain unrepaired, coordinates repair attempts
//! through a [`RepairProvider`] within a per-artifact retry budget, and moves
//! the service between healthy, degraded and suspended states.

use vstd::prelude::*;
use vstd::string::*;
use crate::generation::{
    GenerationManifest, RepairDescriptor, descriptor_index, find_descriptor,
};
use crate::text::{
    clone_strings, decimal, find_string, lemma_seq_lt_asym, push_decimal, push_str, seq_lt,
    sort_distinct_strings, str_eq, strictly_sorted, strings_view,
};

verus! {

// ---------------------------------------------------------------------------
// Corruption detection
// ---------------------------------------------------------------------------
/// How corruption was detected.
#[derive(Debug, Clone, Copy, PartialEq, Eq, Structural)]
pub enum DetectionMethod {
    /// Background periodic checksum scan.
    PeriodicScan,
    /// Detected during a read operation.
    ReadTimeVerification,
    /// Explicit checksum comparison failed.
    ChecksumMismatch,
    /// The `.fec` sidecar file is missing or unreadable.
    MissingSidecar,
}

/// Record of a detected artifact corruption event.
#[derive(Debug, PartialEq, Eq)]
pub struct CorruptionEvent {
    /// Path of the corrupted artifact (manifest-relative).
    pub artifact_path: String,
    /// How the corruption was detected.
    pub detection_method: DetectionMethod,
    /// Unix timestamp (millis) when corruption was detected.
    pub detected_at: u64,
    /// Human-readable detail about the corruption.
    pub detail: String,
}

impl Clone for CorruptionEvent {
    fn clone(&self) -> (r: Self)
        ensures
            r == *self,
    {
        CorruptionEvent {
            artifact_path: self.artifact_path.clone(),
            detection_method: self.detection_method,
            detected_at: self.detected_at,
            detail: self.detail.clone(),
        }
    }
}

// ---------------------------------------------------------------------------
// Repair tracking
// ---------------------------------------------------------------------------
/// Outcome of a single repair attempt.
#[derive(Debug, PartialEq, Eq)]
pub enum RepairOutcome {
    /// Repair succeeded.
    Success { symbols_used: u32 },
    /// Not enough repair symbols to reconstruct the artifact.
    InsufficientSymbols { available: u32, required: u32 },
    /// The `.fec` sidecar file is missing.
    SidecarMissing,
    /// The `.fec` sidecar itself is corrupted.
    SidecarCorrupted,
    /// Repair failed for another reason.
    Failed { reason: String },
}

impl Clone for RepairOutcome {
    fn clone(&self) -> (r: Self)
        ensures
            r == *self,
    {
        match self {
            RepairOutcome::Success { symbols_used } => RepairOutcome::Success {
                symbols_used: *symbols_used,
            },
            RepairOutcome::InsufficientSymbols { available, required } => {
                RepairOutcome::InsufficientSymbols { available: *available, required: *required }
            },
            RepairOutcome::SidecarMissing => RepairOutcome::SidecarMissing,
            RepairOutcome::SidecarCorrupted => RepairOutcome::SidecarCorrupted,
            RepairOutcome::Failed { reason } => RepairOutcome::Failed { reason: reason.clone() },
        }
    }
}

impl RepairOutcome {
    /// Whether the repair was successful.
    pub fn is_success(&self) -> (b: bool)
        ensures
            b == (*self is Success),
    {
        matches!(self, RepairOutcome::Success { .. })
    }
}

/// Record of a repair attempt for a single artifact.
#[derive(Debug, PartialEq, Eq)]
pub struct RepairAttempt {
    /// Path of the artifact that was repaired (manifest-relative).
    pub artifact_path: String,
    /// Unix timestamp (millis) when the repair attempt started.
    pub started_at: u64,
    /// Unix timestamp (millis) when the repair attempt completed.
    pub completed_at: u64,
    /// Outcome of this attempt.
    pub outcome: RepairOutcome,
}

impl Clone for RepairAttempt {
    fn clone(&self) -> (r: Self)
        ensures
            r == *self,
    {
        RepairAttempt {
            artifact_path: self.artifact_path.clone(),
            started_at: self.started_at,
            completed_at: self.completed_at,
            outcome: self.outcome.clone(),
        }
    }
}

/// Consumer-implemented repair of corrupted artifacts.
///
/// The orchestrator calls into this trait when corruption is detected and a
/// repair is within the retry budget. Implementations locate sidecar files,
/// reconstruct the artifact and report the outcome.
pub trait RepairProvider {
    /// Attempt to repair a corrupted artifact using its `.fec` sidecar.
    fn attempt_repair(
        &self,
        artifact_path: &str,
        descriptor: &RepairDescriptor,
        now_millis: u64,
    ) -> RepairAttempt;

    /// Verify an artifact after repair by recomputing its checksum.
    fn verify_after_repair(&self, artifact_path: &str, expected_checksum: &str) -> bool;
}

// ---------------------------------------------------------------------------
// Service state
// ---------------------------------------------------------------------------
/// Why the service entered degraded mode.
#[derive(Debug, PartialEq, Eq)]
pub enum DegradedReason {
    /// One or more artifacts could not be repaired.
    UnrepairableCorruption { failed_artifacts: Vec<String> },
    /// Corruption rate exceeds the policy threshold.
    ExcessiveCorruptionRate { event_count: usize, threshold: usize },
    /// A generation activation attempt failed.
    ActivationFailure { detail: String },
}

/// Whether two degraded reasons hold the same data.
pub open spec fn same_reason(a: DegradedReason, b: DegradedReason) -> bool {
    match (a, b) {
        (
            DegradedReason::UnrepairableCorruption { failed_artifacts: x },
            DegradedReason::UnrepairableCorruption { failed_artifacts: y },
        ) => x@ == y@,
        (DegradedReason::UnrepairableCorruption { .. }, _) => false,
        (_, DegradedReason::UnrepairableCorruption { .. }) => false,
        _ => a == b,
    }
}

/// Whether two service states hold the same data.
pub open spec fn same_state(a: ServiceState, b: ServiceState) -> bool {
    match (a, b) {
        (
            ServiceState::Degraded { entered_at: t1, reason: r1 },
            ServiceState::Degraded { entered_at: t2, reason: r2 },
        ) => t1 == t2 && same_reason(r1, r2),
        (ServiceState::Degraded { .. }, _) => false,
        (_, ServiceState::Degraded { .. }) => false,
        _ => a == b,
    }
}

impl Clone for DegradedReason {
    fn clone(&self) -> (r: Self)
        ensures
            same_reason(r, *self),
    {
        match self {
            DegradedReason::UnrepairableCorruption { failed_artifacts } => {
                DegradedReason::UnrepairableCorruption {
                    failed_artifacts: clone_strings(failed_artifacts),
                }
            },
            DegradedReason::ExcessiveCorruptionRate { event_count, threshold } => {
                DegradedReason::ExcessiveCorruptionRate {
                    event_count: *event_count,
                    threshold: *threshold,
                }
            },
            DegradedReason::ActivationFailure { detail } => DegradedReason::ActivationFailure {
                detail: detail.clone(),
            },
        }
    }
}

/// Current service state of the repair orchestrator.
#[derive(Debug, PartialEq, Eq)]
pub enum ServiceState {
    /// All artifacts verified, no outstanding corruption.
    Healthy,
    /// Serving from the last healthy generation with known issues.
    Degraded { entered_at: u64, reason: DegradedReason },
    /// New activations are blocked until operator intervention.
    Suspended { entered_at: u64, reason: String },
}

impl Clone for ServiceState {
    fn clone(&self) -> (r: Self)
        ensures
            same_state(r, *self),
    {
        match self {
            ServiceState::Healthy => ServiceState::Healthy,
            ServiceState::Degraded { entered_at, reason } => ServiceState::Degraded {
                entered_at: *entered_at,
                reason: reason.clone(),
            },
            ServiceState::Suspended { entered_at, reason } => ServiceState::Suspended {
                entered_at: *entered_at,
                reason: reason.clone(),
            },
        }
    }
}

impl ServiceState {
    /// Whether the service is in a healthy state.
    pub fn is_healthy(&self) -> (b: bool)
        ensures
            b == (*self is Healthy),
    {
        matches!(self, ServiceState::Healthy)
    }

    /// Whether new generation activations should be blocked.
    pub fn is_suspended(&self) -> (b: bool)
        ensures
            b == (*self is Suspended),
    {
        matches!(self, ServiceState::Suspended { .. })
    }
}

// ---------------------------------------------------------------------------
// Corruption policy
// ---------------------------------------------------------------------------
/// Thresholds governing the orchestrator's state transitions.
#[derive(Debug, Clone, Copy, PartialEq, Eq, Structural)]
pub struct CorruptionPolicy {
    /// Unrepaired artifacts at which a healthy service becomes degraded.
    pub max_corrupted_artifacts: usize,
    /// Maximum repair attempts per artifact since its last success.
    pub max_repair_attempts_per_artifact: u32,
    /// Unrepaired artifacts at which the service is suspended.
    pub suspension_threshold: usize,
    /// Cooldown (millis) after suspension before recovery is allowed.
    pub cooldown_after_suspension_ms: u64,
}

impl Default for CorruptionPolicy {
    fn default() -> (p: Self)
        ensures
            p.max_corrupted_artifacts == 3,
            p.max_repair_attempts_per_artifact == 3,
            p.suspension_threshold == 5,
            p.cooldown_after_suspension_ms == 60_000,
    {
        CorruptionPolicy {
            max_corrupted_artifacts: 3,
            max_repair_attempts_per_artifact: 3,
            suspension_threshold: 5,
            cooldown_after_suspension_ms: 60_000,
        }
    }
}

// ---------------------------------------------------------------------------
// Model of the corruption log and repair history
// ---------------------------------------------------------------------------
/// Latest detection time of corruption of `p` in the log, if any.
pub open spec fn latest_detection(log: Seq<CorruptionEvent>, p: Seq<char>) -> Option<u64>
    decreases log.len(),
{
    if log.len() == 0 {
        None
    } else {
        let rest = latest_detection(log.drop_last(), p);
        let e = log.last();
        if e.artifact_path@ == p {
            match rest {
                Some(t) => Some(if t >= e.detected_at {
                    t
                } else {
                    e.detected_at
                }),
                None => Some(e.detected_at),
            }
        } else {
            rest
        }
    }
}

/// Completion time of the latest successful repair of `p` (zero when none).
pub open spec fn latest_success(hist: Seq<RepairAttempt>, p: Seq<char>) -> u64
    decreases hist.len(),
{
    if hist.len() == 0 {
        0
    } else {
        let rest = latest_success(hist.drop_last(), p);
        let a = hist.last();
        if a.artifact_path@ == p && a.outcome is Success {
            if rest >= a.completed_at {
                rest
            } else {
                a.completed_at
            }
        } else {
            rest
        }
    }
}

/// An artifact is unrepaired when its latest detected corruption is newer
/// than its latest successful repair.
pub open spec fn is_unrepaired(log: Seq<CorruptionEvent>, hist: Seq<RepairAttempt>, p: Seq<char>) -> bool {
    match latest_detection(log, p) {
        Some(d) => latest_success(hist, p) < d,
        None => false,
    }
}

/// The set of unrepaired artifact paths.
pub open spec fn unrepaired_set(log: Seq<CorruptionEvent>, hist: Seq<RepairAttempt>) -> Set<Seq<char>> {
    Set::new(|p: Seq<char>| is_unrepaired(log, hist, p))
}

/// Number of attempts on `p` that started after time `t`.
pub open spec fn attempts_started_after(hist: Seq<RepairAttempt>, p: Seq<char>, t: u64) -> nat
    decreases hist.len(),
{
    if hist.len() == 0 {
        0
    } else {
        let a = hist.last();
        attempts_started_after(hist.drop_last(), p, t) + if a.artifact_path@ == p && a.started_at
            > t {
            1nat
        } else {
            0
        }
    }
}

/// Attempts on `p` since its latest successful repair, saturated to `u32`.
pub open spec fn attempts_since_success(hist: Seq<RepairAttempt>, p: Seq<char>) -> u32 {
    let n = attempts_started_after(hist, p, latest_success(hist, p));
    if n > u32::MAX {
        u32::MAX
    } else {
        n as u32
    }
}

/// Reason text of a suspension caused by `u` unrepaired artifacts against
/// threshold `t`.
pub open spec fn suspension_reason(u: nat, t: nat) -> Seq<char> {
    decimal(u) + " unrepaired artifacts exceed suspension threshold ("@ + decimal(t) + ")"@
}

/// Whether `s` is the suspended state entered at `at` for `u` unrepaired
/// artifacts against threshold `t`.
pub open spec fn is_threshold_suspension(s: ServiceState, at: u64, u: nat, t: nat) -> bool {
    match s {
        ServiceState::Suspended { entered_at, reason } => entered_at == at && reason@
            == suspension_reason(u, t),
        _ => false,
    }
}

/// State after a corruption report leaves `u` unrepaired artifacts.
pub open spec fn report_transition(
    before: ServiceState,
    after: ServiceState,
    u: nat,
    policy: CorruptionPolicy,
    at: u64,
) -> bool {
    if u >= policy.suspension_threshold {
        if before is Suspended {
            after == before
        } else {
            is_threshold_suspension(after, at, u, policy.suspension_threshold as nat)
        }
    } else if u >= policy.max_corrupted_artifacts && before is Healthy {
        after == (ServiceState::Degraded {
            entered_at: at,
            reason: DegradedReason::ExcessiveCorruptionRate {
                event_count: u as usize,
                threshold: policy.max_corrupted_artifacts,
            },
        })
    } else {
        after == before
    }
}

/// Whether recovery is allowed from `s` at time `now` once nothing is
/// unrepaired: always from healthy or degraded, and from suspended once the
/// cooldown has elapsed.
pub open spec fn cooldown_allows(s: ServiceState, now: u64, cooldown: u64) -> bool {
    match s {
        ServiceState::Suspended { entered_at, .. } => (if now >= entered_at {
            now - entered_at
        } else {
            0
        }) >= cooldown,
        _ => true,
    }
}

/// State after a repair cycle leaves `u` unrepaired artifacts whose sorted
/// paths are `paths`.
pub open spec fn reevaluate_transition(
    before: ServiceState,
    after: ServiceState,
    u: nat,
    paths: Seq<Seq<char>>,
    policy: CorruptionPolicy,
    now: u64,
) -> bool {
    if u == 0 {
        if !(before is Healthy) && cooldown_allows(before, now, policy.cooldown_after_suspension_ms) {
            after is Healthy
        } else {
            after == before
        }
    } else if u >= policy.suspension_threshold {
        if before is Suspended {
            after == before
        } else {
            is_threshold_suspension(after, now, u, policy.suspension_threshold as nat)
        }
    } else if u >= policy.max_corrupted_artifacts && before is Healthy {
        match after {
            ServiceState::Degraded { entered_at, reason } => entered_at == now && match reason {
                DegradedReason::UnrepairableCorruption { failed_artifacts } => strings_view(
                    failed_artifacts@,
                ) == paths,
                _ => false,
            },
            _ => false,
        }
    } else {
        after == before
    }
}

/// The attempt recorded when no sidecar descriptor protects `p`.
pub open spec fn is_sidecar_missing_attempt(a: RepairAttempt, p: Seq<char>, now: u64) -> bool {
    &&& a.artifact_path@ == p
    &&& a.started_at == now
    &&& a.completed_at == now
    &&& a.outcome is SidecarMissing
}

/// `a` is what `provider.attempt_repair` may return for the artifact at `path`
/// with descriptor `d` at `now`.
pub open spec fn repaired_by<P: RepairProvider + ?Sized>(
    provider: &P,
    path: Seq<char>,
    d: RepairDescriptor,
    now: u64,
    a: RepairAttempt,
) -> bool {
    exists|s: &str, dr: &RepairDescriptor|
        s@ == path && *dr == d && #[trigger] call_ensures(P::attempt_repair, (provider, s, dr, now), a)
}

/// What one repair cycle over the sorted unrepaired `paths` records, given
/// the history `hist` before it: paths whose budget is spent are skipped;
/// every other path gets exactly one attempt, in order, which is the
/// sidecar-missing record when the manifest has no descriptor for it and
/// otherwise what `provider.attempt_repair` returned for the path and its
/// first descriptor.
fn ask_provider<P: RepairProvider + ?Sized>(
    provider: &P,
    path: &str,
    d: &RepairDescriptor,
    now: u64,
) -> (a: RepairAttempt)
    ensures
        repaired_by(provider, path@, *d, now, a),
{
    let a = provider.attempt_repair(path, d, now);
    assert(call_ensures(P::attempt_repair, (provider, path, d, now), a));
    a
}

pub open spec fn cycle_records<P: RepairProvider + ?Sized>(
    paths: Seq<Seq<char>>,
    hist: Seq<RepairAttempt>,
    results: Seq<RepairAttempt>,
    descriptors: Seq<RepairDescriptor>,
    budget: u32,
    now: u64,
    provider: &P,
) -> bool
    decreases paths.len(),
{
    if paths.len() == 0 {
        results.len() == 0
    } else {
        let p = paths[0];
        if attempts_since_success(hist, p) >= budget {
            cycle_records(paths.drop_first(), hist, results, descriptors, budget, now, provider)
        } else {
            &&& results.len() > 0
            &&& (descriptor_index(descriptors, p) is None ==> is_sidecar_missing_attempt(
                results[0],
                p,
                now,
            ))
            &&& (descriptor_index(descriptors, p) matches Some(idx) ==> repaired_by(
                provider,
                p,
                descriptors[idx],
                now,
                results[0],
            ))
            &&& cycle_records(
                paths.drop_first(),
                hist.push(results[0]),
                results.drop_first(),
                descriptors,
                budget,
                now, provider,
            )
        }
    }
}

// ---------------------------------------------------------------------------
// Executable model computations
// ---------------------------------------------------------------------------
fn latest_detection_of(log: &Vec<CorruptionEvent>, path: &str) -> (r: Option<u64>)
    ensures
        r == latest_detection(log@, path@),
{
    let mut r: Option<u64> = None;
    let mut i: usize = 0;
    while i < log.len()
        invariant
            i <= log@.len(),
            r == latest_detection(log@.take(i as int), path@),
        decreases log@.len() - i,
    {
        if str_eq(log[i].artifact_path.as_str(), path) {
            let d = log[i].detected_at;
            r = match r {
                Some(t) => Some(
                    if t >= d {
                        t
                    } else {
                        d
                    },
                ),
                None => Some(d),
            };
        }
        proof {
            assert(log@.take(i + 1).drop_last() =~= log@.take(i as int));
        }
        i = i + 1;
    }
    assert(log@.take(log@.len() as int) =~= log@);
    r
}

fn latest_success_of(hist: &Vec<RepairAttempt>, path: &str) -> (r: u64)
    ensures
        r == latest_success(hist@, path@),
{
    let mut r: u64 = 0;
    let mut i: usize = 0;
    while i < hist.len()
        invariant
            i <= hist@.len(),
            r == latest_success(hist@.take(i as int), path@),
        decreases hist@.len() - i,
    {
        if str_eq(hist[i].artifact_path.as_str(), path) && hist[i].outcome.is_success() {
            let c = hist[i].completed_at;
            if c > r {
                r = c;
            }
        }
        proof {
            assert(hist@.take(i + 1).drop_last() =~= hist@.take(i as int));
        }
        i = i + 1;
    }
    assert(hist@.take(hist@.len() as int) =~= hist@);
    r
}

fn attempts_started_after_of(hist: &Vec<RepairAttempt>, path: &str, t: u64) -> (r: usize)
    ensures
        r == attempts_started_after(hist@, path@, t),
{
    let mut r: usize = 0;
    let mut i: usize = 0;
    while i < hist.len()
        invariant
            i <= hist@.len(),
            r <= i,
            r == attempts_started_after(hist@.take(i as int), path@, t),
        decreases hist@.len() - i,
    {
        if str_eq(hist[i].artifact_path.as_str(), path) && hist[i].started_at > t {
            r = r + 1;
        }
        proof {
            assert(hist@.take(i + 1).drop_last() =~= hist@.take(i as int));
        }
        i = i + 1;
    }
    assert(hist@.take(hist@.len() as int) =~= hist@);
    r
}

proof fn lemma_detection_some_iff_logged(log: Seq<CorruptionEvent>, p: Seq<char>)
    ensures
        latest_detection(log, p) is Some <==> exists|j: int|
            0 <= j < log.len() && (#[trigger] log[j]).artifact_path@ == p,
    decreases log.len(),
{
    if log.len() > 0 {
        lemma_detection_some_iff_logged(log.drop_last(), p);
        if latest_detection(log.drop_last(), p) is Some {
            let j = choose|j: int|
                0 <= j < log.drop_last().len() && (#[trigger] log.drop_last()[j]).artifact_path@
                    == p;
            assert(log[j] == log.drop_last()[j]);
        }
        if exists|j: int| 0 <= j < log.len() && (#[trigger] log[j]).artifact_path@ == p {
            let j = choose|j: int| 0 <= j < log.len() && (#[trigger] log[j]).artifact_path@ == p;
            if j < log.len() - 1 {
                assert(log.drop_last()[j] == log[j]);
            }
        }
    }
}

/// Distinct unrepaired paths, in order of their first corruption report.
fn unrepaired_paths(log: &Vec<CorruptionEvent>, hist: &Vec<RepairAttempt>) -> (r: Vec<String>)
    ensures
        strings_view(r@).no_duplicates(),
        forall|p: Seq<char>| strings_view(r@).contains(p) <==> is_unrepaired(log@, hist@, p),
{
    let mut out: Vec<String> = Vec::new();
    let mut i: usize = 0;
    while i < log.len()
        invariant
            i <= log@.len(),
            strings_view(out@).no_duplicates(),
            forall|p: Seq<char>|
                strings_view(out@).contains(p) <==> (is_unrepaired(log@, hist@, p) && exists|j: int|
                    0 <= j < i && (#[trigger] log@[j]).artifact_path@ == p),
        decreases log@.len() - i,
    {
        let path = log[i].artifact_path.as_str();
        let ghost pv = path@;
        let ghost before = strings_view(out@);
        match find_string(&out, path) {
            Some(k) => {
                assert(before[k as int] == pv);
            },
            None => {
                assert(!before.contains(pv));
                let d = latest_detection_of(log, path);
                let s = latest_success_of(hist, path);
                proof {
                    lemma_detection_some_iff_logged(log@, pv);
                    assert(log@[i as int].artifact_path@ == pv);
                }
                match d {
                    Some(t) => {
                        if s < t {
                            out.push(log[i].artifact_path.clone());
                            proof {
                                assert(strings_view(out@) =~= before.push(pv));
                            }
                        }
                    },
                    None => {},
                }
            },
        }
        proof {
            let now = strings_view(out@);
            assert forall|p: Seq<char>|
                now.contains(p) <==> (is_unrepaired(log@, hist@, p) && exists|j: int|
                    0 <= j < i + 1 && (#[trigger] log@[j]).artifact_path@ == p) by {
                if now.contains(p) && !before.contains(p) {
                    assert(p == pv);
                }
                if exists|j: int| 0 <= j < i + 1 && (#[trigger] log@[j]).artifact_path@ == p {
                    let j = choose|j: int| 0 <= j < i + 1 && (#[trigger] log@[j]).artifact_path@ == p;
                    if j == i && is_unrepaired(log@, hist@, p) && !before.contains(p) {
                        assert(now.contains(p)) by {
                            assert(now[now.len() - 1] == pv);
                        }
                    }
                }
                if before.contains(p) {
                    let k = choose|k: int| 0 <= k < before.len() && before[k] == p;
                    assert(now[k] == p);
                }
            }
        }
        i = i + 1;
    }
    proof {
        assert forall|p: Seq<char>| is_unrepaired(log@, hist@, p) implies strings_view(out@).contains(p) by {
            lemma_detection_some_iff_logged(log@, p);
        }
    }
    out
}

/// The unrepaired set has exactly as many elements as a duplicate-free
/// listing of it.
proof fn lemma_unrepaired_count(log: Seq<CorruptionEvent>, hist: Seq<RepairAttempt>, listing: Seq<Seq<char>>)
    requires
        listing.no_duplicates(),
        forall|p: Seq<char>| listing.contains(p) <==> is_unrepaired(log, hist, p),
    ensures
        unrepaired_set(log, hist).finite(),
        unrepaired_set(log, hist).len() == listing.len(),
        unrepaired_set(log, hist) == listing.to_set(),
{
    assert(unrepaired_set(log, hist) =~= listing.to_set());
    listing.unique_seq_to_set();
}

/// Abstract state of an orchestrator.
pub struct RepairOrchestratorView {
    pub state: ServiceState,
    pub log: Seq<CorruptionEvent>,
    pub history: Seq<RepairAttempt>,
    pub policy: CorruptionPolicy,
}

// ---------------------------------------------------------------------------
// Repair orchestrator
// ---------------------------------------------------------------------------
/// Coordinates corruption detection, repair attempts, and service state
/// transitions.
pub struct RepairOrchestrator {
    state: ServiceState,
    corruption_log: Vec<CorruptionEvent>,
    repair_history: Vec<RepairAttempt>,
    policy: CorruptionPolicy,
}

impl View for RepairOrchestrator {
    type V = RepairOrchestratorView;

    closed spec fn view(&self) -> RepairOrchestratorView {
        RepairOrchestratorView {
            state: self.state,
            log: self.corruption_log@,
            history: self.repair_history@,
            policy: self.policy,
        }
    }
}

impl RepairOrchestratorView {
    /// The unrepaired artifacts of this state.
    pub open spec fn unrepaired(self) -> Set<Seq<char>> {
        unrepaired_set(self.log, self.history)
    }
}

impl RepairOrchestrator {
    /// Create a new orchestrator with the given corruption policy.
    pub fn new(policy: CorruptionPolicy) -> (o: Self)
        ensures
            o@.state is Healthy,
            o@.log.len() == 0,
            o@.history.len() == 0,
            o@.policy == policy,
    {
        RepairOrchestrator {
            state: ServiceState::Healthy,
            corruption_log: Vec::new(),
            repair_history: Vec::new(),
            policy,
        }
    }

    /// Current service state.
    pub fn state(&self) -> (s: ServiceState)
        ensures
            same_state(s, self@.state),
    {
        self.state.clone()
    }

    /// Number of recorded corruption events.
    pub fn corruption_count(&self) -> (n: usize)
        ensures
            n == self@.log.len(),
    {
        self.corruption_log.len()
    }

    /// Number of recorded repair attempts.
    pub fn repair_attempt_count(&self) -> (n: usize)
        ensures
            n == self@.history.len(),
    {
        self.repair_history.len()
    }

    /// Snapshot of all corruption events.
    pub fn corruption_events(&self) -> (v: Vec<CorruptionEvent>)
        ensures
            v@ == self@.log,
    {
        let mut v: Vec<CorruptionEvent> = Vec::new();
        let mut i: usize = 0;
        while i < self.corruption_log.len()
            invariant
                i <= self@.log.len(),
                v@ == self@.log.take(i as int),
            decreases self@.log.len() - i,
        {
            v.push(self.corruption_log[i].clone());
            proof {
                assert(self@.log.take(i + 1) =~= self@.log.take(i as int).push(self@.log[i as int]));
            }
            i = i + 1;
        }
        assert(self@.log.take(self@.log.len() as int) =~= self@.log);
        v
    }

    /// Snapshot of all repair attempts.
    pub fn repair_attempts(&self) -> (v: Vec<RepairAttempt>)
        ensures
            v@ == self@.history,
    {
        let mut v: Vec<RepairAttempt> = Vec::new();
        let mut i: usize = 0;
        while i < self.repair_history.len()
            invariant
                i <= self@.history.len(),
                v@ == self@.history.take(i as int),
            decreases self@.history.len() - i,
        {
            v.push(self.repair_history[i].clone());
            proof {
                assert(self@.history.take(i + 1) =~= self@.history.take(i as int).push(
                    self@.history[i as int],
                ));
            }
            i = i + 1;
        }
        assert(self@.history.take(self@.history.len() as int) =~= self@.history);
        v
    }

    /// Count of unique artifacts that are currently unrepaired (corruption
    /// detected, no successful repair since).
    pub fn unrepaired_artifact_count(&self) -> (n: usize)
        ensures
            self@.unrepaired().finite(),
            n == self@.unrepaired().len(),
    {
        let paths = unrepaired_paths(&self.corruption_log, &self.repair_history);
        proof {
            lemma_unrepaired_count(self@.log, self@.history, strings_view(paths@));
        }
        paths.len()
    }

    /// Unrepaired artifact paths in increasing lexicographic order.
    fn corrupted_artifact_paths(&self) -> (r: Vec<String>)
        ensures
            strictly_sorted(strings_view(r@)),
            strings_view(r@).no_duplicates(),
            strings_view(r@).to_set() == self@.unrepaired(),
            self@.unrepaired().finite(),
            r@.len() == self@.unrepaired().len(),
    {
        let paths = unrepaired_paths(&self.corruption_log, &self.repair_history);
        proof {
            lemma_unrepaired_count(self@.log, self@.history, strings_view(paths@));
        }
        sort_distinct_strings(&paths)
    }

    /// Report a newly detected corruption event: log it, then move a healthy
    /// service to degraded, or any unsuspended service to suspended, when the
    /// number of unrepaired artifacts reaches the policy thresholds.
    pub fn report_corruption(&mut self, event: CorruptionEvent)
        ensures
            final(self)@.log == old(self)@.log.push(event),
            final(self)@.history == old(self)@.history,
            final(self)@.policy == old(self)@.policy,
            final(self)@.unrepaired().finite(),
            report_transition(
                old(self)@.state,
                final(self)@.state,
                final(self)@.unrepaired().len(),
                old(self)@.policy,
                event.detected_at,
            ),
    {
        let entered_at = event.detected_at;
        self.corruption_log.push(event);
        let unrepaired = self.unrepaired_artifact_count();
        if unrepaired >= self.policy.suspension_threshold {
            if !self.state.is_suspended() {
                let reason = suspension_reason_text(unrepaired, self.policy.suspension_threshold);
                self.state = ServiceState::Suspended { entered_at, reason };
            }
        } else if unrepaired >= self.policy.max_corrupted_artifacts {
            if self.state.is_healthy() {
                self.state = ServiceState::Degraded {
                    entered_at,
                    reason: DegradedReason::ExcessiveCorruptionRate {
                        event_count: unrepaired,
                        threshold: self.policy.max_corrupted_artifacts,
                    },
                };
            }
        }
    }

    /// Attempt to repair all unrepaired artifacts, in increasing path order.
    ///
    /// Artifacts whose retry budget is spent are skipped. For each other
    /// artifact, the manifest's repair descriptor is handed to the provider;
    /// without one a sidecar-missing attempt is recorded instead. Afterwards
    /// the service state is re-evaluated. Returns the attempts of this cycle.
    pub fn run_repair_cycle<P: RepairProvider + ?Sized>(
        &mut self,
        manifest: &GenerationManifest,
        provider: &P,
        now_millis: u64,
    ) -> (attempts: Vec<RepairAttempt>)
        ensures
            final(self)@.log == old(self)@.log,
            final(self)@.policy == old(self)@.policy,
            final(self)@.history == old(self)@.history + attempts@,
            old(self)@.unrepaired().finite(),
            final(self)@.unrepaired().finite(),
            forall|paths: Seq<Seq<char>>|
                strictly_sorted(paths) && paths.to_set() == old(self)@.unrepaired()
                    && paths.no_duplicates() ==> cycle_records(
                    paths,
                    old(self)@.history,
                    attempts@,
                    manifest.repair_descriptors@,
                    old(self)@.policy.max_repair_attempts_per_artifact,
                    now_millis, provider,
                ),
            forall|paths: Seq<Seq<char>>|
                strictly_sorted(paths) && paths.to_set() == final(self)@.unrepaired()
                    && paths.no_duplicates() ==> reevaluate_transition(
                    old(self)@.state,
                    final(self)@.state,
                    final(self)@.unrepaired().len(),
                    paths,
                    old(self)@.policy,
                    now_millis,
                ),
    {
        let corrupted = self.corrupted_artifact_paths();
        let ghost pv = strings_view(corrupted@);
        let ghost h0 = self@.history;
        let budget = self.policy.max_repair_attempts_per_artifact;
        let mut cycle_attempts: Vec<RepairAttempt> = Vec::new();
        let mut k: usize = 0;
        proof {
            assert(pv.skip(0) =~= pv);
            assert forall|rest: Seq<RepairAttempt>|
                cycle_records(
                    pv.skip(0),
                    self@.history,
                    rest,
                    manifest.repair_descriptors@,
                    budget,
                    now_millis, provider,
                ) implies cycle_records(
                    pv,
                    h0,
                    cycle_attempts@ + rest,
                    manifest.repair_descriptors@,
                    budget,
                    now_millis, provider,
                ) by {
                assert(cycle_attempts@ + rest =~= rest);
            }
            assert(self@.history =~= h0 + cycle_attempts@);
        }
        while k < corrupted.len()
            invariant
                k <= corrupted@.len(),
                pv == strings_view(corrupted@),
                budget == self@.policy.max_repair_attempts_per_artifact,
                self@.log == old(self)@.log,
                self@.policy == old(self)@.policy,
                self@.state == old(self)@.state,
                h0 == old(self)@.history,
                self@.history == h0 + cycle_attempts@,
                forall|rest: Seq<RepairAttempt>|
                    cycle_records(
                        pv.skip(k as int),
                        self@.history,
                        rest,
                        manifest.repair_descriptors@,
                        budget,
                        now_millis, provider,
                    ) ==> cycle_records(
                        pv,
                        h0,
                        cycle_attempts@ + rest,
                        manifest.repair_descriptors@,
                        budget,
                        now_millis, provider,
                    ),
            decreases corrupted@.len() - k,
        {
            let path = corrupted[k].as_str();
            let ghost p = path@;
            let ghost hist = self@.history;
            proof {
                assert(pv[k as int] == p);
                assert(pv.skip(k as int)[0] == p);
                assert(pv.skip(k as int).drop_first() =~= pv.skip(k + 1));
            }
            if self.attempt_count_since_last_success(path) >= budget {
                proof {
                    assert forall|rest: Seq<RepairAttempt>|
                        cycle_records(
                            pv.skip(k + 1),
                            self@.history,
                            rest,
                            manifest.repair_descriptors@,
                            budget,
                            now_millis, provider,
                        ) implies cycle_records(
                            pv,
                            h0,
                            cycle_attempts@ + rest,
                            manifest.repair_descriptors@,
                            budget,
                            now_millis, provider,
                        ) by {
                        assert(cycle_records(
                            pv.skip(k as int),
                            self@.history,
                            rest,
                            manifest.repair_descriptors@,
                            budget,
                            now_millis, provider,
                        ));
                    }
                }
                k = k + 1;
                continue;
            }
            let fd = find_descriptor(&manifest.repair_descriptors, path);
            let attempt = match fd {
                Some(idx) => ask_provider(provider, path, &manifest.repair_descriptors[idx], now_millis),
                None => RepairAttempt {
                    artifact_path: corrupted[k].clone(),
                    started_at: now_millis,
                    completed_at: now_millis,
                    outcome: RepairOutcome::SidecarMissing,
                },
            };
            let ghost a = attempt;
            let ghost old_cycle = cycle_attempts@;
            proof {
                assert(descriptor_index(manifest.repair_descriptors@, p) is None
                    ==> is_sidecar_missing_attempt(a, p, now_millis));
                if let Some(idx) = fd {
                    assert(repaired_by(provider, p, manifest.repair_descriptors@[idx as int], now_millis, a));
                    assert(descriptor_index(manifest.repair_descriptors@, p) == Some(idx as int));
                }
                assert(descriptor_index(manifest.repair_descriptors@, p) matches Some(idx) ==> repaired_by(
                    provider,
                    p,
                    manifest.repair_descriptors@[idx],
                    now_millis,
                    a,
                ));
                assert(attempts_since_success(hist, p) < budget);
            }
            cycle_attempts.push(attempt.clone());
            self.repair_history.push(attempt);
            proof {
                assert forall|rest: Seq<RepairAttempt>|
                    cycle_records(
                        pv.skip(k + 1),
                        self@.history,
                        rest,
                        manifest.repair_descriptors@,
                        budget,
                        now_millis, provider,
                    ) implies cycle_records(
                        pv,
                        h0,
                        cycle_attempts@ + rest,
                        manifest.repair_descriptors@,
                        budget,
                        now_millis, provider,
                    ) by {
                    let r2 = seq![a] + rest;
                    assert(r2[0] == a);
                    assert(r2.drop_first() =~= rest);
                    assert(hist.push(a) == self@.history);
                    assert(cycle_records(
                        pv.skip(k as int),
                        hist,
                        r2,
                        manifest.repair_descriptors@,
                        budget,
                        now_millis, provider,
                    ));
                    assert(cycle_attempts@ =~= old_cycle.push(a));
                    assert(cycle_attempts@ + rest =~= old_cycle + r2);
                }
                assert(self@.history =~= h0 + cycle_attempts@);
            }
            k = k + 1;
        }
        proof {
            let empty = Seq::<RepairAttempt>::empty();
            assert(pv.skip(k as int).len() == 0);
            assert(cycle_records(
                pv.skip(k as int),
                self@.history,
                empty,
                manifest.repair_descriptors@,
                budget,
                now_millis, provider,
            ));
            assert(cycle_attempts@ + empty =~= cycle_attempts@);
            assert forall|paths: Seq<Seq<char>>|
                strictly_sorted(paths) && paths.to_set() == old(self)@.unrepaired()
                    && paths.no_duplicates() implies cycle_records(
                    paths,
                    h0,
                    cycle_attempts@,
                    manifest.repair_descriptors@,
                    budget,
                    now_millis, provider,
                ) by {
                lemma_sorted_listing_unique(pv, paths);
            }
        }
        self.reevaluate_state(now_millis);
        cycle_attempts
    }

    /// Manually transition to degraded mode with an explicit reason.
    pub fn enter_degraded(&mut self, reason: DegradedReason, now_millis: u64)
        ensures
            final(self)@.state == (ServiceState::Degraded { entered_at: now_millis, reason }),
            final(self)@.log == old(self)@.log,
            final(self)@.history == old(self)@.history,
            final(self)@.policy == old(self)@.policy,
    {
        self.state = ServiceState::Degraded { entered_at: now_millis, reason };
    }

    /// Manually transition to suspended mode (blocks new activations).
    pub fn suspend(&mut self, reason: String, now_millis: u64)
        ensures
            final(self)@.state == (ServiceState::Suspended { entered_at: now_millis, reason }),
            final(self)@.log == old(self)@.log,
            final(self)@.history == old(self)@.history,
            final(self)@.policy == old(self)@.policy,
    {
        self.state = ServiceState::Suspended { entered_at: now_millis, reason };
    }

    /// Attempt to recover from degraded or suspended state.
    ///
    /// Recovery succeeds only when nothing is unrepaired and, from the
    /// suspended state, the cooldown has elapsed. Returns whether the service
    /// is healthy afterwards.
    pub fn try_recover(&mut self, now_millis: u64) -> (ok: bool)
        ensures
            old(self)@.unrepaired().finite(),
            ok == (old(self)@.unrepaired().len() == 0 && cooldown_allows(
                old(self)@.state,
                now_millis,
                old(self)@.policy.cooldown_after_suspension_ms,
            )),
            final(self)@.state == (if ok {
                ServiceState::Healthy
            } else {
                old(self)@.state
            }),
            final(self)@.log == old(self)@.log,
            final(self)@.history == old(self)@.history,
            final(self)@.policy == old(self)@.policy,
    {
        let unrepaired = self.unrepaired_artifact_count();
        if unrepaired > 0 {
            return false;
        }
        match &self.state {
            ServiceState::Healthy => true,
            ServiceState::Degraded { .. } => {
                self.state = ServiceState::Healthy;
                true
            },
            ServiceState::Suspended { entered_at, .. } => {
                let elapsed = now_millis.saturating_sub(*entered_at);
                if elapsed >= self.policy.cooldown_after_suspension_ms {
                    self.state = ServiceState::Healthy;
                    true
                } else {
                    false
                }
            },
        }
    }

    /// Reset the orchestrator, clearing all corruption and repair history.
    pub fn reset(&mut self)
        ensures
            final(self)@.state is Healthy,
            final(self)@.log.len() == 0,
            final(self)@.history.len() == 0,
            final(self)@.policy == old(self)@.policy,
    {
        self.state = ServiceState::Healthy;
        self.corruption_log.clear();
        self.repair_history.clear();
    }

    /// How many repair attempts have occurred for this artifact since its
    /// most recent successful repair.
    fn attempt_count_since_last_success(&self, artifact_path: &str) -> (n: u32)
        ensures
            n == attempts_since_success(self@.history, artifact_path@),
    {
        let latest = latest_success_of(&self.repair_history, artifact_path);
        let count = attempts_started_after_of(&self.repair_history, artifact_path, latest);
        if count > u32::MAX as usize {
            u32::MAX
        } else {
            count as u32
        }
    }

    /// Re-evaluate the service state after repairs.
    fn reevaluate_state(&mut self, now_millis: u64)
        ensures
            final(self)@.log == old(self)@.log,
            final(self)@.history == old(self)@.history,
            final(self)@.policy == old(self)@.policy,
            old(self)@.unrepaired().finite(),
            forall|paths: Seq<Seq<char>>|
                strictly_sorted(paths) && paths.to_set() == old(self)@.unrepaired()
                    && paths.no_duplicates() ==> reevaluate_transition(
                    old(self)@.state,
                    final(self)@.state,
                    old(self)@.unrepaired().len(),
                    paths,
                    old(self)@.policy,
                    now_millis,
                ),
    {
        let unrepaired = self.unrepaired_artifact_count();
        if unrepaired == 0 {
            match &self.state {
                ServiceState::Healthy => {},
                ServiceState::Degraded { .. } => {
                    self.state = ServiceState::Healthy;
                },
                ServiceState::Suspended { entered_at, .. } => {
                    let elapsed = now_millis.saturating_sub(*entered_at);
                    if elapsed >= self.policy.cooldown_after_suspension_ms {
                        self.state = ServiceState::Healthy;
                    }
                },
            }
        } else if unrepaired >= self.policy.suspension_threshold {
            if !self.state.is_suspended() {
                let reason = suspension_reason_text(unrepaired, self.policy.suspension_threshold);
                self.state = ServiceState::Suspended { entered_at: now_millis, reason };
            }
        } else if unrepaired >= self.policy.max_corrupted_artifacts && self.state.is_healthy() {
            let failed_artifacts = self.corrupted_artifact_paths();
            proof {
                assert forall|paths: Seq<Seq<char>>|
                    strictly_sorted(paths) && paths.to_set() == self@.unrepaired()
                        && paths.no_duplicates() implies strings_view(failed_artifacts@)
                    == paths by {
                    lemma_sorted_listing_unique(strings_view(failed_artifacts@), paths);
                }
            }
            self.state = ServiceState::Degraded {
                entered_at: now_millis,
                reason: DegradedReason::UnrepairableCorruption { failed_artifacts },
            };
        }
    }
}

impl Default for RepairOrchestrator {
    fn default() -> (o: Self)
        ensures
            o@.state is Healthy,
            o@.log.len() == 0,
            o@.history.len() == 0,
            o@.policy == (CorruptionPolicy {
                max_corrupted_artifacts: 3,
                max_repair_attempts_per_artifact: 3,
                suspension_threshold: 5,
                cooldown_after_suspension_ms: 60_000,
            }),
    {
        RepairOrchestrator::new(CorruptionPolicy::default())
    }
}

/// The reason text of a threshold suspension.
fn suspension_reason_text(unrepaired: usize, threshold: usize) -> (s: String)
    ensures
        s@ == suspension_reason(unrepaired as nat, threshold as nat),
{
    let mut s = String::new();
    push_decimal(&mut s, unrepaired as u64);
    proof {
        reveal_strlit(" unrepaired artifacts exceed suspension threshold (");
        reveal_strlit(")");
    }
    push_str(&mut s, " unrepaired artifacts exceed suspension threshold (");
    push_decimal(&mut s, threshold as u64);
    push_str(&mut s, ")");
    s
}

/// Two strictly sorted listings of the same finite set are equal.
pub(crate) proof fn lemma_sorted_listing_unique(a: Seq<Seq<char>>, b: Seq<Seq<char>>)
    requires
        strictly_sorted(a),
        strictly_sorted(b),
        a.no_duplicates(),
        b.no_duplicates(),
        a.to_set() == b.to_set(),
    ensures
        a == b,
    decreases a.len(),
{
    a.unique_seq_to_set();
    b.unique_seq_to_set();
    if a.len() > 0 {
        assert(b.len() > 0);
        assert(a.to_set().contains(a[0]));
        assert(b.contains(a[0]));
        let k = choose|k: int| 0 <= k < b.len() && b[k] == a[0];
        assert(b.to_set().contains(b[0]));
        assert(a.contains(b[0]));
        let j = choose|j: int| 0 <= j < a.len() && a[j] == b[0];
        if a[0] != b[0] {
            assert(j > 0 && k > 0);
            assert(seq_lt(a[0], a[j]));
            assert(seq_lt(b[0], b[k]));
            lemma_seq_lt_asym(a[0], b[0]);
        }
        let ta = a.drop_first();
        let tb = b.drop_first();
        assert(ta.to_set() =~= tb.to_set()) by {
            assert forall|x| ta.to_set().contains(x) <==> tb.to_set().contains(x) by {
                if ta.contains(x) {
                    let q = choose|q: int| 0 <= q < ta.len() && ta[q] == x;
                    assert(a[q + 1] == x && x != a[0]);
                    assert(a.contains(x));
                    assert(a.to_set().contains(x));
                    assert(b.contains(x));
                    let r = choose|r: int| 0 <= r < b.len() && b[r] == x;
                    assert(r != 0);
                    assert(tb[r - 1] == x);
                }
                if tb.contains(x) {
                    let q = choose|q: int| 0 <= q < tb.len() && tb[q] == x;
                    assert(b[q + 1] == x && x != b[0]);
                    assert(b.contains(x));
                    assert(b.to_set().contains(x));
                    assert(a.contains(x));
                    let r = choose|r: int| 0 <= r < a.len() && a[r] == x;
                    assert(r != 0);
                    assert(ta[r - 1] == x);
                }
            }
        }
        assert(strictly_sorted(ta)) by {
            assert forall|x: int, y: int| 0 <= x < y < ta.len() implies seq_lt(#[trigger] ta[x], #[trigger] ta[y]) by {
                assert(ta[x] == a[x + 1] && ta[y] == a[y + 1]);
            }
        }
        assert(strictly_sorted(tb)) by {
            assert forall|x: int, y: int| 0 <= x < y < tb.len() implies seq_lt(#[trigger] tb[x], #[trigger] tb[y]) by {
                assert(tb[x] == b[x + 1] && tb[y] == b[y + 1]);
            }
        }
        lemma_sorted_listing_unique(ta, tb);
        assert(a =~= seq![a[0]] + ta);
        assert(b =~= seq![b[0]] + tb);
    } else {
        assert(b.len() == 0);
        assert(a =~= b);
    }
}


proof fn lemma_latest_success_bounds(hist: Seq<RepairAttempt>, p: Seq<char>, j: int)
    requires
        0 <= j < hist.len(),
        hist[j].artifact_path@ == p,
        hist[j].outcome is Success,
    ensures
        latest_success(hist, p) >= hist[j].completed_at,
    decreases hist.len(),
{
    if j < hist.len() - 1 {
        lemma_latest_success_bounds(hist.drop_last(), p, j);
    }
}

/// A successful repair that completes no earlier than the latest detected
/// corruption of an artifact leaves that artifact repaired.
pub proof fn law_successful_repair_clears(
    log: Seq<CorruptionEvent>,
    hist: Seq<RepairAttempt>,
    attempt: RepairAttempt,
)
    requires
        attempt.outcome is Success,
        latest_detection(log, attempt.artifact_path@) matches Some(d) ==> d <= attempt.completed_at,
    ensures
        !is_unrepaired(log, hist.push(attempt), attempt.artifact_path@),
{
    let h = hist.push(attempt);
    lemma_latest_success_bounds(h, attempt.artifact_path@, h.len() - 1);
}

/// Corruption detected after an artifact's latest successful repair makes
/// it unrepaired again.
pub proof fn law_new_corruption_reopens(
    log: Seq<CorruptionEvent>,
    hist: Seq<RepairAttempt>,
    event: CorruptionEvent,
)
    requires
        event.detected_at > latest_success(hist, event.artifact_path@),
    ensures
        is_unrepaired(log.push(event), hist, event.artifact_path@),
        unrepaired_set(log.push(event), hist) == unrepaired_set(log, hist).insert(
            event.artifact_path@,
        ),
{
    let l2 = log.push(event);
    assert(l2.drop_last() =~= log);
    assert forall|p: Seq<char>| #[trigger] is_unrepaired(l2, hist, p) <==> (is_unrepaired(log, hist, p) || p
        == event.artifact_path@) by {
        if p != event.artifact_path@ {
            assert(latest_detection(l2, p) == latest_detection(log, p));
        }
    }
    assert(unrepaired_set(l2, hist) =~= unrepaired_set(log, hist).insert(event.artifact_path@));
}

/// Reporting further corruption of an artifact that is already unrepaired
/// leaves the set of unrepaired artifacts unchanged.
pub proof fn law_repeat_corruption_counted_once(
    log: Seq<CorruptionEvent>,
    hist: Seq<RepairAttempt>,
    event: CorruptionEvent,
)
    requires
        is_unrepaired(log, hist, event.artifact_path@),
    ensures
        unrepaired_set(log.push(event), hist) == unrepaired_set(log, hist),
{
    let l2 = log.push(event);
    assert(l2.drop_last() =~= log);
    assert forall|p: Seq<char>| #[trigger] is_unrepaired(l2, hist, p) <==> is_unrepaired(log, hist, p) by {
        if p != event.artifact_path@ {
            assert(latest_detection(l2, p) == latest_detection(log, p));
        }
    }
    assert(unrepaired_set(l2, hist) =~= unrepaired_set(log, hist));
}

/// A corruption report never lifts a suspension, and never moves a service
/// to a state other than suspended or degraded by the policy thresholds.
pub proof fn law_report_keeps_suspension(
    before: ServiceState,
    after: ServiceState,
    u: nat,
    policy: CorruptionPolicy,
    at: u64,
)
    requires
        report_transition(before, after, u, policy, at),
        before is Suspended,
    ensures
        after == before,
{
}

} // verus!
