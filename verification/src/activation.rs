//! Generation activation controller.
//!
//! The [`GenerationController`] manages the lifecycle of search generations:
//! it validates manifests, checks activation invariants through a
//! deployment-provided [`ArtifactVerifier`], swaps the active generation and
//! keeps the previous one for a single-step rollback.

use std::sync::Arc;
use vstd::prelude::*;
use crate::generation::{
    ActivationInvariant, EmbedderRevision, GenerationManifest, InvariantKind,
    QuantizationFormat, ValidationResult, manifest_is_valid, revisions_equal, same_revision,
    validate_manifest,
};
use crate::text::{decimal, push_decimal, push_str};

verus! {

// ---------------------------------------------------------------------------
// Active generation snapshot
// ---------------------------------------------------------------------------
/// A verified, ready-to-serve generation snapshot.
#[derive(Debug, Clone)]
pub struct ActiveGeneration {
    /// The manifest this generation was built from.
    pub manifest: GenerationManifest,
    /// Monotonic activation sequence number.
    pub activation_seq: u64,
    /// Unix timestamp (millis) when this generation was activated.
    pub activated_at: u64,
    /// Resolved paths of the vector artifacts, keyed by manifest path:
    /// sorted by key, each key once.
    pub vector_paths: Vec<(String, String)>,
    /// Resolved paths of the lexical artifacts, keyed by manifest path:
    /// sorted by key, each key once.
    pub lexical_paths: Vec<(String, String)>,
}

impl ActiveGeneration {
    /// The resolved path of the vector artifact at manifest path `key`.
    pub fn vector_path(&self, key: &str) -> (r: Option<&String>)
        ensures
            match lookup_pair(self.vector_paths@, key@) {
                Some(i) => r is Some && *r.unwrap() == self.vector_paths@[i].1,
                None => r is None,
            },
    {
        match find_pair(&self.vector_paths, key) {
            Some(i) => Some(&self.vector_paths[i].1),
            None => None,
        }
    }

    /// The resolved path of the lexical artifact at manifest path `key`.
    pub fn lexical_path(&self, key: &str) -> (r: Option<&String>)
        ensures
            match lookup_pair(self.lexical_paths@, key@) {
                Some(i) => r is Some && *r.unwrap() == self.lexical_paths@[i].1,
                None => r is None,
            },
    {
        match find_pair(&self.lexical_paths, key) {
            Some(i) => Some(&self.lexical_paths[i].1),
            None => None,
        }
    }
}

/// Index of the first pair whose key is `key`.
pub open spec fn lookup_pair(v: Seq<(String, String)>, key: Seq<char>) -> Option<int>
    decreases v.len(),
{
    if v.len() == 0 {
        None
    } else if v[0].0@ == key {
        Some(0)
    } else {
        match lookup_pair(v.drop_first(), key) {
            Some(i) => Some(i + 1),
            None => None,
        }
    }
}

proof fn lemma_lookup_pair_step(v: Seq<(String, String)>, key: Seq<char>, i: int)
    requires
        0 <= i < v.len(),
        forall|j: int| 0 <= j < i ==> v[j].0@ != key,
        v[i].0@ == key,
    ensures
        lookup_pair(v, key) == Some(i),
    decreases i,
{
    if i > 0 {
        lemma_lookup_pair_step(v.drop_first(), key, i - 1);
    }
}

proof fn lemma_lookup_pair_none(v: Seq<(String, String)>, key: Seq<char>)
    requires
        forall|j: int| 0 <= j < v.len() ==> v[j].0@ != key,
    ensures
        lookup_pair(v, key) is None,
    decreases v.len(),
{
    if v.len() > 0 {
        lemma_lookup_pair_none(v.drop_first(), key);
    }
}

fn find_pair(v: &Vec<(String, String)>, key: &str) -> (r: Option<usize>)
    ensures
        r matches Some(k) ==> lookup_pair(v@, key@) == Some(k as int) && k < v@.len(),
        r is None ==> lookup_pair(v@, key@) is None,
{
    let mut i: usize = 0;
    while i < v.len()
        invariant
            i <= v@.len(),
            forall|j: int| 0 <= j < i ==> v@[j].0@ != key@,
        decreases v@.len() - i,
    {
        if crate::text::str_eq(v[i].0.as_str(), key) {
            proof {
                lemma_lookup_pair_step(v@, key@, i as int);
            }
            return Some(i);
        }
        i = i + 1;
    }
    proof {
        lemma_lookup_pair_none(v@, key@);
    }
    None
}

/// The keys of a list of key/value pairs.
pub open spec fn pair_keys(v: Seq<(String, String)>) -> Seq<Seq<char>> {
    v.map_values(|p: (String, String)| p.0@)
}

/// Insert `(key, value)` into the pairs `v`, kept strictly sorted by key:
/// a pair with that key gets the new value, otherwise the pair is added in
/// its place.
fn insert_sorted_pair(v: &mut Vec<(String, String)>, key: String, value: String)
    requires
        crate::text::strictly_sorted(pair_keys(old(v)@)),
    ensures
        crate::text::strictly_sorted(pair_keys(final(v)@)),
        pair_keys(final(v)@).to_set() == pair_keys(old(v)@).to_set().insert(key@),
        forall|i: int|
            0 <= i < final(v)@.len() ==> #[trigger] final(v)@[i] == (key, value) || (final(v)@[i].0@ != key@
                && old(v)@.contains(final(v)@[i])),
{
    let ghost ov = old(v)@;
    let mut pos: usize = 0;
    while pos < v.len() && crate::text::str_compare(v[pos].0.as_str(), key.as_str()) == -1
        invariant
            v@ == ov,
            pos <= v@.len(),
            forall|j: int| 0 <= j < pos ==> crate::text::seq_lt((#[trigger] v@[j]).0@, key@),
        decreases v@.len() - pos,
    {
        pos = pos + 1;
    }
    let ghost keys = pair_keys(ov);
    assert forall|j: int| pos <= j < ov.len() implies !crate::text::seq_lt((#[trigger] ov[j]).0@, key@) by {
        assert(!crate::text::seq_lt(ov[pos as int].0@, key@));
        if j > pos {
            assert(keys[pos as int] == ov[pos as int].0@ && keys[j] == ov[j].0@);
            assert(crate::text::seq_lt(keys[pos as int], keys[j]));
            if crate::text::seq_lt(ov[j].0@, key@) {
                crate::text::lemma_seq_lt_trans(ov[pos as int].0@, ov[j].0@, key@);
            }
        }
    }
    if pos < v.len() && crate::text::str_eq(v[pos].0.as_str(), key.as_str()) {
        v.set(pos, (key, value));
        proof {
            let nv = v@;
            assert(pair_keys(nv) =~= keys);
            assert(pair_keys(nv).to_set() =~= keys.to_set().insert(key@)) by {
                assert(keys[pos as int] == key@);
            }
            assert forall|i: int| 0 <= i < nv.len() implies #[trigger] nv[i] == (key, value) || (nv[i].0@ != key@
                && ov.contains(nv[i])) by {
                if i != pos {
                    assert(nv[i] == ov[i]);
                    assert(keys[i] == ov[i].0@);
                    if i < pos {
                        crate::text::lemma_seq_lt_asym(keys[i], keys[pos as int]);
                    } else {
                        crate::text::lemma_seq_lt_asym(keys[pos as int], keys[i]);
                    }
                }
            }
        }
    } else {
        proof {
            if pos < ov.len() {
                assert(ov[pos as int].0@ != key@);
                crate::text::lemma_seq_lt_total(ov[pos as int].0@, key@);
            }
        }
        v.insert(pos, (key, value));
        proof {
            let nv = v@;
            let nk = pair_keys(nv);
            assert(nk =~= keys.insert(pos as int, key@));
            assert forall|i: int, j: int| 0 <= i < j < nk.len() implies crate::text::seq_lt(
                #[trigger] nk[i],
                #[trigger] nk[j],
            ) by {
                if j < pos {
                    assert(nk[i] == keys[i] && nk[j] == keys[j]);
                } else if j == pos {
                    assert(nk[i] == ov[i].0@);
                } else if i < pos {
                    assert(nk[i] == ov[i].0@ && nk[j] == ov[j - 1].0@);
                    assert(crate::text::seq_lt(ov[i].0@, key@));
                    if j - 1 == pos as int {
                        crate::text::lemma_seq_lt_total(ov[j - 1].0@, key@);
                        crate::text::lemma_seq_lt_trans(ov[i].0@, key@, ov[j - 1].0@);
                    } else {
                        assert(!crate::text::seq_lt(ov[j - 1].0@, key@));
                        assert(keys[i] == ov[i].0@ && keys[j - 1] == ov[j - 1].0@);
                    }
                } else if i == pos {
                    assert(nk[j] == ov[j - 1].0@);
                    assert(!crate::text::seq_lt(ov[j - 1].0@, key@));
                    if ov[j - 1].0@ == key@ {
                        assert(keys[pos as int] == ov[pos as int].0@);
                        if j - 1 > pos {
                            assert(keys[j - 1] == ov[j - 1].0@);
                            assert(crate::text::seq_lt(keys[pos as int], keys[j - 1]));
                            crate::text::lemma_seq_lt_trans(key@, keys[pos as int], keys[j - 1]);
                            crate::text::lemma_seq_lt_asym(key@, key@);
                        }
                    }
                    crate::text::lemma_seq_lt_total(ov[j - 1].0@, key@);
                } else {
                    assert(nk[i] == keys[i - 1] && nk[j] == keys[j - 1]);
                }
            }
            assert(nk.to_set() =~= keys.to_set().insert(key@)) by {
                assert(nk[pos as int] == key@);
                assert forall|x: Seq<char>| nk.to_set().contains(x) implies keys.to_set().insert(key@).contains(x) by {
                    let i = choose|i: int| 0 <= i < nk.len() && nk[i] == x;
                    if i < pos {
                        assert(keys[i] == x);
                    } else if i > pos {
                        assert(keys[i - 1] == x);
                    }
                }
                assert forall|x: Seq<char>| keys.to_set().insert(key@).contains(x) implies nk.to_set().contains(x) by {
                    if x != key@ {
                        let i = choose|i: int| 0 <= i < keys.len() && keys[i] == x;
                        if i < pos {
                            assert(nk[i] == x);
                        } else {
                            assert(nk[i + 1] == x);
                        }
                    }
                }
            }
            assert forall|i: int| 0 <= i < nv.len() implies #[trigger] nv[i] == (key, value) || (nv[i].0@ != key@
                && ov.contains(nv[i])) by {
                if i < pos {
                    assert(nv[i] == ov[i]);
                    crate::text::lemma_seq_lt_asym(ov[i].0@, key@);
                } else if i > pos {
                    assert(nv[i] == ov[i - 1]);
                    if ov[i - 1].0@ == key@ {
                        if i - 1 == pos as int {
                        } else {
                            assert(keys[pos as int] == ov[pos as int].0@ && keys[i - 1] == ov[i - 1].0@);
                            assert(crate::text::seq_lt(keys[pos as int], keys[i - 1]));
                            crate::text::lemma_seq_lt_total(ov[pos as int].0@, key@);
                            crate::text::lemma_seq_lt_trans(key@, keys[pos as int], keys[i - 1]);
                            crate::text::lemma_seq_lt_asym(key@, key@);
                        }
                    }
                }
            }
        }
    }
}

// ---------------------------------------------------------------------------
// Artifact verification
// ---------------------------------------------------------------------------
/// Result of verifying a single artifact against its manifest descriptor.
#[derive(Debug, PartialEq, Eq)]
pub struct ArtifactVerification {
    /// Manifest-relative path of the artifact.
    pub path: String,
    /// Whether the artifact passed verification.
    pub passed: bool,
    /// Details about the verification.
    pub detail: String,
}

impl Clone for ArtifactVerification {
    fn clone(&self) -> (r: Self)
        ensures
            r == *self,
    {
        ArtifactVerification { path: self.path.clone(), passed: self.passed, detail: self.detail.clone() }
    }
}

/// Deployment-provided checks of artifacts and runtime identity.
///
/// Consumers implement this trait for their environment; it keeps the
/// controller decoupled from filesystem specifics.
pub trait ArtifactVerifier {
    /// Verify a single artifact exists and matches the expected checksum.
    fn verify(&self, manifest_path: &str, checksum: &str, expected_size: u64) -> ArtifactVerification;

    /// Return the resolved absolute path for a manifest-relative path.
    fn resolve_path(&self, manifest_path: &str) -> String;

    /// Runtime embedder revision for a tier key; `None` when unknown.
    fn runtime_embedder(&self, tier: &str) -> (r: Option<EmbedderRevision>)
        default_ensures
            r is None,
    {
        None
    }

    /// Evaluate a deployment-defined custom invariant; `None` when this
    /// verifier does not implement custom checks.
    fn check_custom_invariant(
        &self,
        check_name: &str,
        manifest: &GenerationManifest,
        previous: Option<&ActiveGeneration>,
    ) -> (r: Option<(bool, String)>)
        default_ensures
            r is None,
    {
        None
    }
}

// ---------------------------------------------------------------------------
// Activation gate
// ---------------------------------------------------------------------------
/// Result of evaluating a single activation invariant.
#[derive(Debug, PartialEq, Eq)]
pub struct InvariantCheck {
    /// The invariant that was checked.
    pub invariant_id: String,
    /// Whether the invariant passed.
    pub passed: bool,
    /// Reason for pass or failure.
    pub reason: String,
}

impl Clone for InvariantCheck {
    fn clone(&self) -> (r: Self)
        ensures
            r == *self,
    {
        InvariantCheck {
            invariant_id: self.invariant_id.clone(),
            passed: self.passed,
            reason: self.reason.clone(),
        }
    }
}

/// Sum of the vector counts of a manifest's vector artifacts.
pub open spec fn total_vectors(arts: Seq<crate::generation::VectorArtifact>) -> int
    decreases arts.len(),
{
    if arts.len() == 0 {
        0
    } else {
        total_vectors(arts.drop_last()) + arts.last().vector_count
    }
}

/// Reason text of a vector-count check.
pub open spec fn vector_count_reason(actual: nat, expected: nat) -> Seq<char> {
    if actual == expected {
        "vector count "@ + decimal(actual) + " matches expected "@ + decimal(expected)
    } else {
        "vector count "@ + decimal(actual) + " != expected "@ + decimal(expected)
    }
}

/// Outcome (pass flag and reason) of a commit-continuity check.
pub open spec fn continuity_outcome(
    previous: Option<GenerationManifest>,
    current_low: u64,
    previous_high: u64,
) -> (bool, Seq<char>) {
    match previous {
        None => (true, "commit continuity skipped (no previous generation)"@),
        Some(prev) => {
            let actual_prev_high = prev.commit_range.high;
            let expected_low: u64 = if previous_high == u64::MAX {
                u64::MAX
            } else {
                (previous_high + 1) as u64
            };
            if actual_prev_high != previous_high {
                (
                    false,
                    "expected previous high "@ + decimal(previous_high as nat) + ", found "@
                        + decimal(actual_prev_high as nat),
                )
            } else if current_low != expected_low {
                (
                    false,
                    "expected current low "@ + decimal(expected_low as nat)
                        + " to follow previous high "@ + decimal(previous_high as nat)
                        + ", found "@ + decimal(current_low as nat),
                )
            } else {
                (
                    true,
                    "commit continuity verified: prev_high="@ + decimal(previous_high as nat)
                        + ", current_low="@ + decimal(current_low as nat),
                )
            }
        },
    }
}

/// Reason text of a custom check the verifier does not implement.
pub open spec fn custom_unimplemented_reason(name: Seq<char>) -> Seq<char> {
    "custom check '"@ + name + "' is not implemented"@
}

/// What the check of one invariant states, for the kinds whose outcome does
/// not depend on the verifier: its id always, and its pass flag and reason
/// for vector-count and commit-continuity invariants.
pub open spec fn check_matches(
    c: InvariantCheck,
    inv: ActivationInvariant,
    manifest: GenerationManifest,
    previous: Option<GenerationManifest>,
) -> bool {
    &&& c.invariant_id@ == inv.id@
    &&& match inv.kind {
        InvariantKind::VectorCountConsistency { expected_total } => {
            &&& c.passed == (total_vectors(manifest.vector_artifacts@) == expected_total)
            &&& c.reason@ == vector_count_reason(
                total_vectors(manifest.vector_artifacts@) as nat,
                expected_total as nat,
            )
        },
        InvariantKind::CommitContinuity { previous_high } => {
            let o = continuity_outcome(previous, manifest.commit_range.low, previous_high);
            c.passed == o.0 && c.reason@ == o.1
        },
        _ => true,
    }
}

/// `v` is what `verifier.verify` may return for an artifact at `path` with
/// `checksum` and `size`.
pub open spec fn verified_as<V: ArtifactVerifier + ?Sized>(
    verifier: &V,
    path: Seq<char>,
    checksum: Seq<char>,
    size: u64,
    v: ArtifactVerification,
) -> bool {
    exists|p: &str, c: &str| p@ == path && c@ == checksum && #[trigger] call_ensures(V::verify, (verifier, p, c, size), v)
}

/// `checked` holds, for every artifact of `m` in order (vector artifacts,
/// then lexical ones), its path and what the verifier answered for it.
pub open spec fn artifact_answers<V: ArtifactVerifier + ?Sized>(
    verifier: &V,
    m: GenerationManifest,
    checked: Seq<(String, ArtifactVerification)>,
) -> bool {
    let nv = m.vector_artifacts@.len();
    &&& checked.len() == nv + m.lexical_artifacts@.len()
    &&& forall|k: int|
        0 <= k < nv ==> {
            let a = #[trigger] m.vector_artifacts@[k];
            checked[k].0@ == a.path@ && verified_as(verifier, a.path@, a.checksum@, a.size_bytes, checked[k].1)
        }
    &&& forall|k: int|
        0 <= k < m.lexical_artifacts@.len() ==> {
            let a = #[trigger] m.lexical_artifacts@[k];
            checked[nv + k].0@ == a.path@ && verified_as(
                verifier,
                a.path@,
                a.checksum@,
                a.size_bytes,
                checked[nv + k].1,
            )
        }
}

/// `actual` holds, for every embedder tier of `m` in order, what the
/// verifier's `runtime_embedder` answered for that tier.
pub open spec fn embedder_answers<V: ArtifactVerifier + ?Sized>(
    verifier: &V,
    m: GenerationManifest,
    actual: Seq<Option<EmbedderRevision>>,
) -> bool {
    &&& actual.len() == m.embedders@.len()
    &&& forall|k: int| 0 <= k < actual.len() ==> embedder_answered(verifier, (#[trigger] m.embedders@[k]).0@, actual[k])
}

/// `a` is what `verifier.runtime_embedder` may return for the tier `tier`.
pub open spec fn embedder_answered<V: ArtifactVerifier + ?Sized>(
    verifier: &V,
    tier: Seq<char>,
    a: Option<EmbedderRevision>,
) -> bool {
    exists|t: &str| t@ == tier && #[trigger] call_ensures(V::runtime_embedder, (verifier, t), a)
}

/// `hook` is what the verifier's `check_custom_invariant` may answer for the
/// check named `name` on `m` with the previous generation `previous`.
pub open spec fn custom_answer<V: ArtifactVerifier + ?Sized>(
    verifier: &V,
    name: Seq<char>,
    m: GenerationManifest,
    previous: Option<&ActiveGeneration>,
    hook: Option<(bool, String)>,
) -> bool {
    exists|n: &str, mr: &GenerationManifest|
        n@ == name && *mr == m && #[trigger] call_ensures(V::check_custom_invariant, (verifier, n, mr, previous), hook)
}

/// The previous generation's manifest, if any.
pub open spec fn previous_manifest(previous: Option<&ActiveGeneration>) -> Option<GenerationManifest> {
    match previous {
        Some(p) => Some(p.manifest),
        None => None,
    }
}

/// What the check of one invariant is, for every kind: for the kinds the
/// library decides alone, as `check_matches` states; for the others, the
/// summary of what the verifier answered.
pub open spec fn check_describes<V: ArtifactVerifier + ?Sized>(
    c: InvariantCheck,
    inv: ActivationInvariant,
    m: GenerationManifest,
    verifier: &V,
    previous: Option<&ActiveGeneration>,
) -> bool {
    &&& check_matches(c, inv, m, previous_manifest(previous))
    &&& match inv.kind {
        InvariantKind::AllArtifactsVerified => exists|checked: Seq<(String, ArtifactVerification)>|
            #[trigger] artifact_answers(verifier, m, checked) && c.passed == (failure_lines(checked).len() == 0)
                && c.reason@ == artifacts_reason(checked),
        InvariantKind::EmbedderRevisionMatch => exists|actual: Seq<Option<EmbedderRevision>>|
            #[trigger] embedder_answers(verifier, m, actual) && c.passed == (embedder_failures(m.embedders@, actual).len()
                == 0) && (c.passed ==> c.reason@ == "runtime embedder revisions match manifest"@) && (!c.passed
                ==> c.reason@ == join(embedder_failures(m.embedders@, actual), "; "@)),
        InvariantKind::Custom { check_name } => exists|hook: Option<(bool, String)>|
            #[trigger] custom_answer(verifier, check_name@, m, previous, hook) && match hook {
                Some((passed, reason)) => c.passed == passed && c.reason == reason,
                None => !c.passed && c.reason@ == custom_unimplemented_reason(check_name@),
            },
        _ => true,
    }
}

/// `checks` are the checks of all of `m`'s invariants, one per invariant, in
/// order.
pub open spec fn checks_describe<V: ArtifactVerifier + ?Sized>(
    checks: Seq<InvariantCheck>,
    m: GenerationManifest,
    verifier: &V,
    previous: Option<&ActiveGeneration>,
) -> bool {
    &&& checks.len() == m.activation_invariants@.len()
    &&& forall|i: int|
        0 <= i < checks.len() ==> check_describes(#[trigger] checks[i], m.activation_invariants@[i], m, verifier, previous)
}

/// Whether the manifest's vector counts add up without overflowing `u64`
/// wherever a vector-count invariant needs the sum.
pub open spec fn vector_total_fits(m: GenerationManifest) -> bool {
    (exists|i: int|
        0 <= i < m.activation_invariants@.len() && (#[trigger] m.activation_invariants@[i]).kind is VectorCountConsistency)
        ==> total_vectors(m.vector_artifacts@) <= u64::MAX
}

proof fn lemma_total_vectors_prefix(arts: Seq<crate::generation::VectorArtifact>, i: int)
    requires
        0 <= i <= arts.len(),
    ensures
        total_vectors(arts.take(i)) <= total_vectors(arts),
        total_vectors(arts.take(i)) >= 0,
    decreases arts.len() - i,
{
    if i < arts.len() {
        lemma_total_vectors_prefix(arts, i + 1);
        assert(arts.take(i + 1).drop_last() =~= arts.take(i));
    } else {
        assert(arts.take(i) =~= arts);
    }
    lemma_total_vectors_nonneg(arts.take(i));
}

proof fn lemma_total_vectors_nonneg(arts: Seq<crate::generation::VectorArtifact>)
    ensures
        total_vectors(arts) >= 0,
    decreases arts.len(),
{
    if arts.len() > 0 {
        lemma_total_vectors_nonneg(arts.drop_last());
    }
}

fn sum_vector_counts(m: &GenerationManifest) -> (r: u64)
    requires
        total_vectors(m.vector_artifacts@) <= u64::MAX,
    ensures
        r == total_vectors(m.vector_artifacts@),
{
    let mut total: u64 = 0;
    let mut i: usize = 0;
    while i < m.vector_artifacts.len()
        invariant
            i <= m.vector_artifacts@.len(),
            total_vectors(m.vector_artifacts@) <= u64::MAX,
            total == total_vectors(m.vector_artifacts@.take(i as int)),
        decreases m.vector_artifacts@.len() - i,
    {
        proof {
            assert(m.vector_artifacts@.take(i + 1).drop_last() =~= m.vector_artifacts@.take(i as int));
            lemma_total_vectors_prefix(m.vector_artifacts@, i + 1);
        }
        total = total + m.vector_artifacts[i].vector_count;
        i = i + 1;
    }
    assert(m.vector_artifacts@.take(i as int) =~= m.vector_artifacts@);
    total
}

fn evaluate_vector_count_consistency(
    inv: &ActivationInvariant,
    manifest: &GenerationManifest,
    expected_total: u64,
) -> (c: InvariantCheck)
    requires
        total_vectors(manifest.vector_artifacts@) <= u64::MAX,
    ensures
        c.invariant_id@ == inv.id@,
        c.passed == (total_vectors(manifest.vector_artifacts@) == expected_total),
        c.reason@ == vector_count_reason(
            total_vectors(manifest.vector_artifacts@) as nat,
            expected_total as nat,
        ),
{
    let actual = sum_vector_counts(manifest);
    let passed = actual == expected_total;
    let mut reason = String::new();
    push_str(&mut reason, "vector count ");
    push_decimal(&mut reason, actual);
    if passed {
        push_str(&mut reason, " matches expected ");
    } else {
        push_str(&mut reason, " != expected ");
    }
    push_decimal(&mut reason, expected_total);
    InvariantCheck { invariant_id: inv.id.clone(), passed, reason }
}

fn evaluate_commit_continuity(
    inv: &ActivationInvariant,
    manifest: &GenerationManifest,
    previous: Option<&ActiveGeneration>,
    previous_high: u64,
) -> (c: InvariantCheck)
    ensures
        c.invariant_id@ == inv.id@,
        ({
            let o = continuity_outcome(
                match previous {
                    Some(p) => Some(p.manifest),
                    None => None,
                },
                manifest.commit_range.low,
                previous_high,
            );
            c.passed == o.0 && c.reason@ == o.1
        }),
{
    let mut reason = String::new();
    let passed = match previous {
        None => {
            push_str(&mut reason, "commit continuity skipped (no previous generation)");
            true
        },
        Some(prev) => {
            let actual_prev_high = prev.manifest.commit_range.high;
            let actual_low = manifest.commit_range.low;
            let expected_low = previous_high.saturating_add(1);
            if actual_prev_high != previous_high {
                push_str(&mut reason, "expected previous high ");
                push_decimal(&mut reason, previous_high);
                push_str(&mut reason, ", found ");
                push_decimal(&mut reason, actual_prev_high);
                false
            } else if actual_low != expected_low {
                push_str(&mut reason, "expected current low ");
                push_decimal(&mut reason, expected_low);
                push_str(&mut reason, " to follow previous high ");
                push_decimal(&mut reason, previous_high);
                push_str(&mut reason, ", found ");
                push_decimal(&mut reason, actual_low);
                false
            } else {
                push_str(&mut reason, "commit continuity verified: prev_high=");
                push_decimal(&mut reason, previous_high);
                push_str(&mut reason, ", current_low=");
                push_decimal(&mut reason, actual_low);
                true
            }
        },
    };
    InvariantCheck { invariant_id: inv.id.clone(), passed, reason }
}

/// Summarize the verification of every artifact: the check passes when all
/// passed; otherwise its reason counts and lists the failures.
pub fn summarize_artifact_verifications(
    invariant_id: &str,
    checked: &Vec<(String, ArtifactVerification)>,
) -> (c: InvariantCheck)
    ensures
        c.invariant_id@ == invariant_id@,
        c.passed == (failure_lines(checked@).len() == 0),
        c.reason@ == artifacts_reason(checked@),
{
    let mut failures: Vec<String> = Vec::new();
    let mut i: usize = 0;
    while i < checked.len()
        invariant
            i <= checked@.len(),
            crate::text::strings_view(failures@) == failure_lines(checked@.take(i as int)),
        decreases checked@.len() - i,
    {
        proof {
            assert(checked@.take(i + 1).drop_last() =~= checked@.take(i as int));
        }
        if !checked[i].1.passed {
            let mut line = String::new();
            push_str(&mut line, checked[i].0.as_str());
            push_str(&mut line, ": ");
            push_str(&mut line, checked[i].1.detail.as_str());
            let ghost before = failures@;
            failures.push(line);
            proof {
                assert(crate::text::strings_view(failures@) =~= crate::text::strings_view(before).push(
                    line@,
                ));
            }
        } else {
            proof {
                assert(checked@.take(i + 1).last() == checked@[i as int]);
            }
        }
        i = i + 1;
    }
    assert(checked@.take(checked@.len() as int) =~= checked@);
    let passed = failures.len() == 0;
    let mut reason = String::new();
    if passed {
        push_str(&mut reason, "all artifacts verified");
    } else {
        push_decimal(&mut reason, failures.len() as u64);
        push_str(&mut reason, " artifact(s) failed: ");
        push_joined(&mut reason, &failures, "; ");
    }
    InvariantCheck { invariant_id: invariant_id.to_owned(), passed, reason }
}

/// The "path: detail" lines of the failed verifications, in order.
pub open spec fn failure_lines(checked: Seq<(String, ArtifactVerification)>) -> Seq<Seq<char>>
    decreases checked.len(),
{
    if checked.len() == 0 {
        Seq::empty()
    } else {
        let rest = failure_lines(checked.drop_last());
        let c = checked.last();
        if c.1.passed {
            rest
        } else {
            rest.push(c.0@ + ": "@ + c.1.detail@)
        }
    }
}

/// Reason text of an all-artifacts check.
pub open spec fn artifacts_reason(checked: Seq<(String, ArtifactVerification)>) -> Seq<char> {
    let f = failure_lines(checked);
    if f.len() == 0 {
        "all artifacts verified"@
    } else {
        decimal(f.len()) + " artifact(s) failed: "@ + join(f, "; "@)
    }
}

/// The pieces joined with `sep` between consecutive ones.
pub open spec fn join(pieces: Seq<Seq<char>>, sep: Seq<char>) -> Seq<char>
    decreases pieces.len(),
{
    if pieces.len() == 0 {
        Seq::empty()
    } else if pieces.len() == 1 {
        pieces[0]
    } else {
        join(pieces.drop_last(), sep) + sep + pieces.last()
    }
}

/// Append `pieces` joined by `sep`.
pub fn push_joined(out: &mut String, pieces: &Vec<String>, sep: &str)
    ensures
        final(out)@ == old(out)@ + join(crate::text::strings_view(pieces@), sep@),
{
    let ghost start = out@;
    let mut i: usize = 0;
    while i < pieces.len()
        invariant
            i <= pieces@.len(),
            out@ == start + join(crate::text::strings_view(pieces@.take(i as int)), sep@),
        decreases pieces@.len() - i,
    {
        proof {
            assert(crate::text::strings_view(pieces@.take(i + 1)).drop_last() =~= crate::text::strings_view(
                pieces@.take(i as int),
            ));
        }
        if i > 0 {
            push_str(out, sep);
        }
        push_str(out, pieces[i].as_str());
        proof {
            let v = crate::text::strings_view(pieces@.take(i + 1));
            assert(v.last() == pieces@[i as int]@);
            if i == 0 {
                assert(v.len() == 1);
                assert(join(crate::text::strings_view(pieces@.take(0)), sep@) =~= Seq::<char>::empty());
            }
        }
        i = i + 1;
    }
    assert(pieces@.take(pieces@.len() as int) =~= pieces@);
}

/// The quantization name as `Debug` prints it.
pub open spec fn quantization_name(q: QuantizationFormat) -> Seq<char> {
    match q {
        QuantizationFormat::F32 => "F32"@,
        QuantizationFormat::F16 => "F16"@,
    }
}

fn push_quantization(out: &mut String, q: QuantizationFormat)
    ensures
        final(out)@ == old(out)@ + quantization_name(q),
{
    match q {
        QuantizationFormat::F32 => push_str(out, "F32"),
        QuantizationFormat::F16 => push_str(out, "F16"),
    }
}

/// The mismatch line of a tier whose runtime embedder differs.
pub open spec fn mismatch_line(tier: Seq<char>, e: EmbedderRevision, a: EmbedderRevision) -> Seq<char> {
    "tier '"@ + tier + "' mismatch: expected model="@ + e.model_name@ + " hash="@ + e.weights_hash@
        + " dim="@ + decimal(e.dimension as nat) + " quant="@ + quantization_name(e.quantization)
        + ", got model="@ + a.model_name@ + " hash="@ + a.weights_hash@ + " dim="@ + decimal(
        a.dimension as nat,
    ) + " quant="@ + quantization_name(a.quantization)
}

/// The failure lines of the embedder check, given each tier's expected
/// revision and the runtime revision reported for it.
pub open spec fn embedder_failures(
    expected: Seq<(String, EmbedderRevision)>,
    actual: Seq<Option<EmbedderRevision>>,
) -> Seq<Seq<char>>
    decreases expected.len(),
{
    if expected.len() == 0 || actual.len() != expected.len() {
        Seq::empty()
    } else {
        let rest = embedder_failures(expected.drop_last(), actual.drop_last());
        let (tier, e) = expected.last();
        match actual.last() {
            None => rest.push("runtime embedder missing for tier '"@ + tier@ + "'"@),
            Some(a) => if same_revision(a, e) {
                rest
            } else {
                rest.push(mismatch_line(tier@, e, a))
            },
        }
    }
}

/// Summarize the embedder comparison: pass when every tier's runtime
/// revision is present and equal to the manifest's.
pub fn summarize_embedder_revisions(
    invariant_id: &str,
    expected: &Vec<(String, EmbedderRevision)>,
    actual: &Vec<Option<EmbedderRevision>>,
) -> (c: InvariantCheck)
    requires
        actual@.len() == expected@.len(),
    ensures
        c.invariant_id@ == invariant_id@,
        c.passed == (embedder_failures(expected@, actual@).len() == 0),
        c.passed ==> c.reason@ == "runtime embedder revisions match manifest"@,
        !c.passed ==> c.reason@ == join(embedder_failures(expected@, actual@), "; "@),
{
    let mut failures: Vec<String> = Vec::new();
    let mut i: usize = 0;
    while i < expected.len()
        invariant
            i <= expected@.len(),
            actual@.len() == expected@.len(),
            crate::text::strings_view(failures@) == embedder_failures(
                expected@.take(i as int),
                actual@.take(i as int),
            ),
        decreases expected@.len() - i,
    {
        proof {
            assert(expected@.take(i + 1).drop_last() =~= expected@.take(i as int));
            assert(actual@.take(i + 1).drop_last() =~= actual@.take(i as int));
        }
        let ghost before = failures@;
        let tier = expected[i].0.as_str();
        match &actual[i] {
            None => {
                let mut line = String::new();
                push_str(&mut line, "runtime embedder missing for tier '");
                push_str(&mut line, tier);
                push_str(&mut line, "'");
                failures.push(line);
                proof {
                    assert(crate::text::strings_view(failures@) =~= crate::text::strings_view(before).push(line@));
                }
            },
            Some(a) => {
                let e = &expected[i].1;
                if !revisions_equal(a, e) {
                    let mut line = String::new();
                    push_str(&mut line, "tier '");
                    push_str(&mut line, tier);
                    push_str(&mut line, "' mismatch: expected model=");
                    push_str(&mut line, e.model_name.as_str());
                    push_str(&mut line, " hash=");
                    push_str(&mut line, e.weights_hash.as_str());
                    push_str(&mut line, " dim=");
                    push_decimal(&mut line, e.dimension as u64);
                    push_str(&mut line, " quant=");
                    push_quantization(&mut line, e.quantization);
                    push_str(&mut line, ", got model=");
                    push_str(&mut line, a.model_name.as_str());
                    push_str(&mut line, " hash=");
                    push_str(&mut line, a.weights_hash.as_str());
                    push_str(&mut line, " dim=");
                    push_decimal(&mut line, a.dimension as u64);
                    push_str(&mut line, " quant=");
                    push_quantization(&mut line, a.quantization);
                    failures.push(line);
                    proof {
                        assert(crate::text::strings_view(failures@) =~= crate::text::strings_view(before).push(line@));
                    }
                }
            },
        }
        i = i + 1;
    }
    assert(expected@.take(expected@.len() as int) =~= expected@);
    assert(actual@.take(actual@.len() as int) =~= actual@);
    let passed = failures.len() == 0;
    let mut reason = String::new();
    if passed {
        push_str(&mut reason, "runtime embedder revisions match manifest");
    } else {
        push_joined(&mut reason, &failures, "; ");
    }
    InvariantCheck { invariant_id: invariant_id.to_owned(), passed, reason }
}

fn evaluate_all_artifacts_verified<V: ArtifactVerifier + ?Sized>(
    inv: &ActivationInvariant,
    manifest: &GenerationManifest,
    verifier: &V,
) -> (c: InvariantCheck)
    ensures
        c.invariant_id@ == inv.id@,
        exists|checked: Seq<(String, ArtifactVerification)>|
            #[trigger] artifact_answers(verifier, *manifest, checked) && c.passed == (failure_lines(checked).len() == 0)
                && c.reason@ == artifacts_reason(checked),
{
    let ghost nv = manifest.vector_artifacts@.len();
    let mut checked: Vec<(String, ArtifactVerification)> = Vec::new();
    let mut i: usize = 0;
    while i < manifest.vector_artifacts.len()
        invariant
            i <= nv,
            nv == manifest.vector_artifacts@.len(),
            checked@.len() == i,
            forall|k: int|
                0 <= k < i ==> {
                    let a = #[trigger] manifest.vector_artifacts@[k];
                    checked@[k].0@ == a.path@ && verified_as(verifier, a.path@, a.checksum@, a.size_bytes, checked@[k].1)
                },
        decreases manifest.vector_artifacts@.len() - i,
    {
        let art = &manifest.vector_artifacts[i];
        let p = art.path.as_str();
        let ck = art.checksum.as_str();
        let v = verifier.verify(p, ck, art.size_bytes);
        assert(call_ensures(V::verify, (verifier, p, ck, art.size_bytes), v));
        checked.push((art.path.clone(), v));
        i = i + 1;
    }
    let mut j: usize = 0;
    while j < manifest.lexical_artifacts.len()
        invariant
            j <= manifest.lexical_artifacts@.len(),
            nv == manifest.vector_artifacts@.len(),
            checked@.len() == nv + j,
            forall|k: int|
                0 <= k < nv ==> {
                    let a = #[trigger] manifest.vector_artifacts@[k];
                    checked@[k].0@ == a.path@ && verified_as(verifier, a.path@, a.checksum@, a.size_bytes, checked@[k].1)
                },
            forall|k: int|
                0 <= k < j ==> {
                    let a = #[trigger] manifest.lexical_artifacts@[k];
                    checked@[nv + k].0@ == a.path@ && verified_as(
                        verifier,
                        a.path@,
                        a.checksum@,
                        a.size_bytes,
                        checked@[nv + k].1,
                    )
                },
        decreases manifest.lexical_artifacts@.len() - j,
    {
        let art = &manifest.lexical_artifacts[j];
        let p = art.path.as_str();
        let ck = art.checksum.as_str();
        let v = verifier.verify(p, ck, art.size_bytes);
        assert(call_ensures(V::verify, (verifier, p, ck, art.size_bytes), v));
        checked.push((art.path.clone(), v));
        j = j + 1;
    }
    assert(artifact_answers(verifier, *manifest, checked@));
    summarize_artifact_verifications(inv.id.as_str(), &checked)
}

fn evaluate_embedder_revision_match<V: ArtifactVerifier + ?Sized>(
    inv: &ActivationInvariant,
    manifest: &GenerationManifest,
    verifier: &V,
) -> (c: InvariantCheck)
    ensures
        c.invariant_id@ == inv.id@,
        exists|actual: Seq<Option<EmbedderRevision>>|
            #[trigger] embedder_answers(verifier, *manifest, actual) && c.passed == (embedder_failures(
                manifest.embedders@,
                actual,
            ).len() == 0) && (c.passed ==> c.reason@ == "runtime embedder revisions match manifest"@) && (!c.passed
                ==> c.reason@ == join(embedder_failures(manifest.embedders@, actual), "; "@)),
{
    let mut actual: Vec<Option<EmbedderRevision>> = Vec::new();
    let mut i: usize = 0;
    while i < manifest.embedders.len()
        invariant
            i <= manifest.embedders@.len(),
            actual@.len() == i,
            forall|k: int|
                0 <= k < i ==> embedder_answered(verifier, (#[trigger] manifest.embedders@[k]).0@, actual@[k]),
        decreases manifest.embedders@.len() - i,
    {
        let t = manifest.embedders[i].0.as_str();
        let rev = verifier.runtime_embedder(t);
        assert(call_ensures(V::runtime_embedder, (verifier, t), rev));
        assert(embedder_answered(verifier, manifest.embedders@[i as int].0@, rev));
        actual.push(rev);
        i = i + 1;
    }
    assert(embedder_answers(verifier, *manifest, actual@));
    summarize_embedder_revisions(inv.id.as_str(), &manifest.embedders, &actual)
}

fn evaluate_custom_invariant<V: ArtifactVerifier + ?Sized>(
    inv: &ActivationInvariant,
    check_name: &str,
    verifier: &V,
    manifest: &GenerationManifest,
    previous: Option<&ActiveGeneration>,
) -> (c: InvariantCheck)
    ensures
        c.invariant_id@ == inv.id@,
        exists|hook: Option<(bool, String)>|
            #[trigger] custom_answer(verifier, check_name@, *manifest, previous, hook) && match hook {
                Some((passed, reason)) => c.passed == passed && c.reason == reason,
                None => !c.passed && c.reason@ == custom_unimplemented_reason(check_name@),
            },
{
    let hook = verifier.check_custom_invariant(check_name, manifest, previous);
    assert(call_ensures(V::check_custom_invariant, (verifier, check_name, manifest, previous), hook));
    assert(custom_answer(verifier, check_name@, *manifest, previous, hook));
    custom_check_from_hook(inv.id.as_str(), check_name, hook)
}

/// The check of a custom invariant given what the verifier's hook returned:
/// its verdict when it evaluated the check, a failure otherwise.
pub fn custom_check_from_hook(
    invariant_id: &str,
    check_name: &str,
    hook: Option<(bool, String)>,
) -> (c: InvariantCheck)
    ensures
        c.invariant_id@ == invariant_id@,
        match hook {
            Some((passed, reason)) => c.passed == passed && c.reason == reason,
            None => !c.passed && c.reason@ == custom_unimplemented_reason(check_name@),
        },
{
    match hook {
        Some((passed, reason)) => InvariantCheck { invariant_id: invariant_id.to_owned(), passed, reason },
        None => {
            let mut reason = String::new();
            push_str(&mut reason, "custom check '");
            push_str(&mut reason, check_name);
            push_str(&mut reason, "' is not implemented");
            InvariantCheck { invariant_id: invariant_id.to_owned(), passed: false, reason }
        },
    }
}

fn evaluate_invariant<V: ArtifactVerifier + ?Sized>(
    inv: &ActivationInvariant,
    manifest: &GenerationManifest,
    verifier: &V,
    previous: Option<&ActiveGeneration>,
) -> (c: InvariantCheck)
    requires
        inv.kind is VectorCountConsistency ==> total_vectors(manifest.vector_artifacts@) <= u64::MAX,
    ensures
        check_describes(c, *inv, *manifest, verifier, previous),
{
    match &inv.kind {
        InvariantKind::AllArtifactsVerified => evaluate_all_artifacts_verified(inv, manifest, verifier),
        InvariantKind::EmbedderRevisionMatch => evaluate_embedder_revision_match(inv, manifest, verifier),
        InvariantKind::VectorCountConsistency { expected_total } => {
            evaluate_vector_count_consistency(inv, manifest, *expected_total)
        },
        InvariantKind::CommitContinuity { previous_high } => {
            evaluate_commit_continuity(inv, manifest, previous, *previous_high)
        },
        InvariantKind::Custom { check_name } => {
            evaluate_custom_invariant(inv, check_name.as_str(), verifier, manifest, previous)
        },
    }
}

/// Evaluate all activation invariants for a manifest, one check per
/// invariant, in order. All must pass for activation to proceed.
pub fn check_invariants<V: ArtifactVerifier + ?Sized>(
    manifest: &GenerationManifest,
    verifier: &V,
    previous_generation: Option<&ActiveGeneration>,
) -> (checks: Vec<InvariantCheck>)
    requires
        vector_total_fits(*manifest),
    ensures
        checks_describe(checks@, *manifest, verifier, previous_generation),
{
    let mut checks: Vec<InvariantCheck> = Vec::new();
    let mut i: usize = 0;
    while i < manifest.activation_invariants.len()
        invariant
            i <= manifest.activation_invariants@.len(),
            vector_total_fits(*manifest),
            checks@.len() == i,
            forall|j: int|
                0 <= j < i ==> check_describes(
                    #[trigger] checks@[j],
                    manifest.activation_invariants@[j],
                    *manifest,
                    verifier,
                    previous_generation,
                ),
        decreases manifest.activation_invariants@.len() - i,
    {
        let inv = &manifest.activation_invariants[i];
        let c = evaluate_invariant(inv, manifest, verifier, previous_generation);
        checks.push(c);
        i = i + 1;
    }
    checks
}

// ---------------------------------------------------------------------------
// Errors
// ---------------------------------------------------------------------------
/// Why an activation was refused.
#[derive(Debug, PartialEq, Eq)]
pub enum SearchError {
    /// A configuration value is invalid.
    InvalidConfig { field: String, value: String, reason: String },
    /// A subsystem refused the operation.
    SubsystemError { subsystem: String, source: String },
}

/// The display text of an error.
pub open spec fn search_error_text(e: SearchError) -> Seq<char> {
    match e {
        SearchError::InvalidConfig { field, value, reason } => "invalid configuration for "@ + field@ + " ("@
            + value@ + "): "@ + reason@,
        SearchError::SubsystemError { subsystem, source } => subsystem@ + " failed: "@ + source@,
    }
}

impl SearchError {
    /// The display text of the error.
    pub fn to_display_string(&self) -> (s: String)
        ensures
            s@ == search_error_text(*self),
    {
        let mut s = String::new();
        match self {
            SearchError::InvalidConfig { field, value, reason } => {
                push_str(&mut s, "invalid configuration for ");
                push_str(&mut s, field.as_str());
                push_str(&mut s, " (");
                push_str(&mut s, value.as_str());
                push_str(&mut s, "): ");
                push_str(&mut s, reason.as_str());
            },
            SearchError::SubsystemError { subsystem, source } => {
                push_str(&mut s, subsystem.as_str());
                push_str(&mut s, " failed: ");
                push_str(&mut s, source.as_str());
            },
        }
        proof {
            assert(s@ =~= search_error_text(*self));
        }
        s
    }
}

/// Reason text of a validation failure.
pub open spec fn validation_failure_reason(v: ValidationResult) -> Seq<char> {
    "manifest validation failed: "@ + join(
        v.findings@.map_values(|f: crate::generation::ValidationFinding| f.message@),
        "; "@,
    )
}

/// The reason given when `m` fails validation: every finding's message, in
/// order, after a fixed prefix.
pub open spec fn manifest_failure_reason(m: GenerationManifest) -> Seq<char> {
    "manifest validation failed: "@ + join(crate::generation::manifest_finding_messages(m), "; "@)
}

/// The error reported for a manifest that fails validation.
pub fn activation_error(validation: &ValidationResult) -> (e: SearchError)
    ensures
        match e {
            SearchError::InvalidConfig { field, value, reason } => field@ == "generation_manifest"@
                && value@.len() == 0 && reason@ == validation_failure_reason(*validation),
            _ => false,
        },
{
    let mut messages: Vec<String> = Vec::new();
    let mut i: usize = 0;
    while i < validation.findings.len()
        invariant
            i <= validation.findings@.len(),
            crate::text::strings_view(messages@) == validation.findings@.take(i as int).map_values(
                |f: crate::generation::ValidationFinding| f.message@,
            ),
        decreases validation.findings@.len() - i,
    {
        let ghost before = messages@;
        messages.push(validation.findings[i].message.clone());
        proof {
            assert(crate::text::strings_view(messages@) =~= crate::text::strings_view(before).push(
                validation.findings@[i as int].message@,
            ));
            assert(validation.findings@.take(i + 1) =~= validation.findings@.take(i as int).push(
                validation.findings@[i as int],
            ));
            assert(crate::text::strings_view(messages@) =~= validation.findings@.take(i + 1).map_values(
                |f: crate::generation::ValidationFinding| f.message@,
            ));
        }
        i = i + 1;
    }
    assert(validation.findings@.take(validation.findings@.len() as int) =~= validation.findings@);
    let mut reason = String::new();
    push_str(&mut reason, "manifest validation failed: ");
    push_joined(&mut reason, &messages, "; ");
    SearchError::InvalidConfig {
        field: String::from_str("generation_manifest"),
        value: String::new(),
        reason,
    }
}

/// The "id: reason" lines of the failed checks, in order.
pub open spec fn failed_check_lines(checks: Seq<InvariantCheck>) -> Seq<Seq<char>>
    decreases checks.len(),
{
    if checks.len() == 0 {
        Seq::empty()
    } else {
        let rest = failed_check_lines(checks.drop_last());
        let c = checks.last();
        if c.passed {
            rest
        } else {
            rest.push(c.invariant_id@ + ": "@ + c.reason@)
        }
    }
}

proof fn lemma_all_passed_no_failures(checks: Seq<InvariantCheck>)
    requires
        forall|i: int| 0 <= i < checks.len() ==> (#[trigger] checks[i]).passed,
    ensures
        failed_check_lines(checks).len() == 0,
    decreases checks.len(),
{
    if checks.len() > 0 {
        assert(checks.last().passed);
        lemma_all_passed_no_failures(checks.drop_last());
    }
}

/// Whether every invariant of the manifest is of a kind the controller
/// decides alone (vector count, commit continuity) and passes.
pub open spec fn self_decided_invariants_pass(m: GenerationManifest, previous: Option<GenerationManifest>) -> bool {
    forall|i: int|
        0 <= i < m.activation_invariants@.len() ==> match (#[trigger] m.activation_invariants@[i]).kind {
            InvariantKind::VectorCountConsistency { expected_total } => total_vectors(m.vector_artifacts@)
                == expected_total,
            InvariantKind::CommitContinuity { previous_high } => continuity_outcome(
                previous,
                m.commit_range.low,
                previous_high,
            ).0,
            _ => false,
        }
}

/// The activation gate over evaluated checks: `Ok` when all passed,
/// otherwise the subsystem error listing every failed check.
pub fn gate_checks(checks: &Vec<InvariantCheck>) -> (r: Result<(), SearchError>)
    ensures
        r is Ok <==> failed_check_lines(checks@).len() == 0,
        r matches Err(e) ==> match e {
            SearchError::SubsystemError { subsystem, source } => subsystem@
                == "generation_activation"@ && source@ == join(failed_check_lines(checks@), "; "@),
            _ => false,
        },
{
    let mut reasons: Vec<String> = Vec::new();
    let mut i: usize = 0;
    while i < checks.len()
        invariant
            i <= checks@.len(),
            crate::text::strings_view(reasons@) == failed_check_lines(checks@.take(i as int)),
        decreases checks@.len() - i,
    {
        proof {
            assert(checks@.take(i + 1).drop_last() =~= checks@.take(i as int));
        }
        if !checks[i].passed {
            let mut line = String::new();
            push_str(&mut line, checks[i].invariant_id.as_str());
            push_str(&mut line, ": ");
            push_str(&mut line, checks[i].reason.as_str());
            let ghost before = reasons@;
            reasons.push(line);
            proof {
                assert(crate::text::strings_view(reasons@) =~= crate::text::strings_view(before).push(line@));
            }
        }
        i = i + 1;
    }
    assert(checks@.take(checks@.len() as int) =~= checks@);
    if reasons.len() == 0 {
        Ok(())
    } else {
        let mut source = String::new();
        push_joined(&mut source, &reasons, "; ");
        Err(SearchError::SubsystemError { subsystem: String::from_str("generation_activation"), source })
    }
}

// ---------------------------------------------------------------------------
// Generation controller
// ---------------------------------------------------------------------------
/// Share an active generation: another handle to the same snapshot.
#[verifier::external_body]
pub(crate) fn share_generation(g: &Arc<ActiveGeneration>) -> (r: Arc<ActiveGeneration>)
    ensures
        r == *g,
{
    Arc::clone(g)
}

/// Abstract state of a controller.
pub struct GenerationControllerView {
    pub active: Option<Arc<ActiveGeneration>>,
    pub counter: u64,
    pub rollback: Option<Arc<ActiveGeneration>>,
}

/// Manages the active search generation with swap and single-step rollback.
pub struct GenerationController {
    active: Option<Arc<ActiveGeneration>>,
    activation_counter: u64,
    rollback: Option<Arc<ActiveGeneration>>,
}

impl View for GenerationController {
    type V = GenerationControllerView;

    closed spec fn view(&self) -> GenerationControllerView {
        GenerationControllerView {
            active: self.active,
            counter: self.activation_counter,
            rollback: self.rollback,
        }
    }
}

/// `r` is a path that `verifier.resolve_path` may return for a manifest path
/// reading `path`.
pub open spec fn resolves_to<V: ArtifactVerifier + ?Sized>(verifier: &V, path: Seq<char>, r: String) -> bool {
    exists|s: &str| s@ == path && #[trigger] call_ensures(V::resolve_path, (verifier, s), r)
}

/// The active generation, as the previous one handed to invariant checks.
pub open spec fn previous_of(active: &Option<Arc<ActiveGeneration>>) -> Option<&ActiveGeneration> {
    match active {
        Some(a) => Some(&**a),
        None => None,
    }
}

/// The manifest paths of the vector artifacts `arts`.
pub open spec fn vector_path_set(arts: Seq<crate::generation::VectorArtifact>) -> Set<Seq<char>> {
    Set::new(|p: Seq<char>| exists|k: int| 0 <= k < arts.len() && (#[trigger] arts[k]).path@ == p)
}

/// The manifest paths of the lexical artifacts `arts`.
pub open spec fn lexical_path_set(arts: Seq<crate::generation::LexicalArtifact>) -> Set<Seq<char>> {
    Set::new(|p: Seq<char>| exists|k: int| 0 <= k < arts.len() && (#[trigger] arts[k]).path@ == p)
}

/// The manifest of the active generation, if any.
pub open spec fn active_manifest(active: Option<Arc<ActiveGeneration>>) -> Option<GenerationManifest> {
    match active {
        Some(a) => Some(a.manifest),
        None => None,
    }
}

/// The controller state after a successful activation of `g` from `before`.
pub open spec fn activated(before: GenerationControllerView, after: GenerationControllerView, g: Arc<ActiveGeneration>) -> bool {
    &&& after.active == Some(g)
    &&& after.counter == before.counter + 1
    &&& after.rollback == before.active
}

/// The controller state after `rollback` returned `ok` from `before`.
pub open spec fn rolled_back(before: GenerationControllerView, after: GenerationControllerView, ok: bool) -> bool {
    &&& ok == (before.rollback is Some)
    &&& after.rollback is None
    &&& after.counter == before.counter
    &&& after.active == (if ok {
        before.rollback
    } else {
        before.active
    })
}

impl GenerationController {
    /// Create a new controller with no active generation.
    pub fn new() -> (c: Self)
        ensures
            c@.active is None,
            c@.counter == 0,
            c@.rollback is None,
    {
        GenerationController { active: None, activation_counter: 0, rollback: None }
    }

    /// The currently active generation, if any.
    pub fn active(&self) -> (g: Option<Arc<ActiveGeneration>>)
        ensures
            g == self@.active,
    {
        match &self.active {
            Some(a) => Some(share_generation(a)),
            None => None,
        }
    }

    /// Current activation sequence number.
    pub fn activation_seq(&self) -> (n: u64)
        ensures
            n == self@.counter,
    {
        self.activation_counter
    }

    /// Attempt to activate a new generation.
    ///
    /// Validates the manifest, checks every activation invariant, then makes
    /// the new generation active and keeps the previous one for rollback.
    /// On failure at any step, the controller is unchanged.
    pub fn activate<V: ArtifactVerifier + ?Sized>(
        &mut self,
        manifest: GenerationManifest,
        verifier: &V,
        now_millis: u64,
    ) -> (r: Result<Arc<ActiveGeneration>, SearchError>)
        requires
            old(self)@.counter < u64::MAX,
            vector_total_fits(manifest),
        ensures
            !manifest_is_valid(manifest) ==> match r {
                Err(SearchError::InvalidConfig { field, value, reason }) => field@ == "generation_manifest"@
                    && value@.len() == 0 && reason@ == manifest_failure_reason(manifest),
                _ => false,
            },
            manifest_is_valid(manifest) && self_decided_invariants_pass(
                manifest,
                active_manifest(old(self)@.active),
            ) ==> r is Ok,
            r matches Err(e) ==> final(self)@ == old(self)@,
            manifest_is_valid(manifest) ==> exists|checks: Seq<InvariantCheck>|
                #[trigger] checks_describe(checks, manifest, verifier, previous_of(&old(self)@.active)) && (r is Ok
                    <==> failed_check_lines(checks).len() == 0) && (r is Err ==> match r->Err_0 {
                    SearchError::SubsystemError { subsystem, source } => subsystem@ == "generation_activation"@
                        && source@ == join(failed_check_lines(checks), "; "@),
                    _ => false,
                }),
            r matches Ok(g) ==> {
                &&& activated(old(self)@, final(self)@, g)
                &&& manifest_is_valid(manifest)
                &&& g.manifest == manifest
                &&& g.activation_seq == old(self)@.counter + 1
                &&& g.activated_at == now_millis
                &&& crate::text::strictly_sorted(pair_keys(g.vector_paths@))
                &&& crate::text::strictly_sorted(pair_keys(g.lexical_paths@))
                &&& pair_keys(g.vector_paths@).to_set() == vector_path_set(manifest.vector_artifacts@)
                &&& pair_keys(g.lexical_paths@).to_set() == lexical_path_set(manifest.lexical_artifacts@)
                &&& forall|i: int|
                    0 <= i < g.vector_paths@.len() ==> resolves_to(
                        verifier,
                        (#[trigger] g.vector_paths@[i]).0@,
                        g.vector_paths@[i].1,
                    )
                &&& forall|i: int|
                    0 <= i < g.lexical_paths@.len() ==> resolves_to(
                        verifier,
                        (#[trigger] g.lexical_paths@[i]).0@,
                        g.lexical_paths@[i].1,
                    )
            },
    {
        let validation = validate_manifest(&manifest);
        if !validation.is_valid() {
            return Err(activation_error(&validation));
        }
        let checks = {
            let previous: Option<&ActiveGeneration> = match &self.active {
                Some(a) => Some(&**a),
                None => None,
            };
            let c = check_invariants(&manifest, verifier, previous);
            assert(previous == previous_of(&self@.active));
            c
        };
        proof {
            if self_decided_invariants_pass(manifest, active_manifest(self@.active)) {
                assert forall|i: int| 0 <= i < checks@.len() implies (#[trigger] checks@[i]).passed by {
                    assert(check_matches(checks@[i], manifest.activation_invariants@[i], manifest, active_manifest(self@.active)));
                }
                lemma_all_passed_no_failures(checks@);
            }
        }
        match gate_checks(&checks) {
            Err(e) => {
                return Err(e);
            },
            Ok(()) => {},
        }
        let mut vector_paths: Vec<(String, String)> = Vec::new();
        let mut i: usize = 0;
        assert(pair_keys(vector_paths@).to_set() =~= vector_path_set(manifest.vector_artifacts@.take(0)));
        while i < manifest.vector_artifacts.len()
            invariant
                i <= manifest.vector_artifacts@.len(),
                crate::text::strictly_sorted(pair_keys(vector_paths@)),
                pair_keys(vector_paths@).to_set() == vector_path_set(manifest.vector_artifacts@.take(i as int)),
                forall|k: int|
                    0 <= k < vector_paths@.len() ==> resolves_to(
                        verifier,
                        (#[trigger] vector_paths@[k]).0@,
                        vector_paths@[k].1,
                    ),
            decreases manifest.vector_artifacts@.len() - i,
        {
            let p = manifest.vector_artifacts[i].path.as_str();
            let resolved = verifier.resolve_path(p);
            assert(call_ensures(V::resolve_path, (verifier, p), resolved));
            let ghost before = vector_paths@;
            let key = p.to_owned();
            let ghost kv = (key, resolved);
            insert_sorted_pair(&mut vector_paths, key, resolved);
            proof {
                assert(resolves_to(verifier, kv.0@, kv.1));
                assert forall|k: int| 0 <= k < vector_paths@.len() implies resolves_to(
                    verifier,
                    (#[trigger] vector_paths@[k]).0@,
                    vector_paths@[k].1,
                ) by {
                    if vector_paths@[k] != kv {
                        let m = choose|m: int| 0 <= m < before.len() && before[m] == vector_paths@[k];
                        assert(resolves_to(verifier, before[m].0@, before[m].1));
                    }
                }
                assert(vector_path_set(manifest.vector_artifacts@.take(i + 1)) =~= vector_path_set(
                    manifest.vector_artifacts@.take(i as int),
                ).insert(p@)) by {
                    assert(manifest.vector_artifacts@.take(i + 1)[i as int] == manifest.vector_artifacts@[i as int]);
                }
            }
            i = i + 1;
        }
        assert(manifest.vector_artifacts@.take(manifest.vector_artifacts@.len() as int) =~= manifest.vector_artifacts@);
        let mut lexical_paths: Vec<(String, String)> = Vec::new();
        let mut j: usize = 0;
        assert(pair_keys(lexical_paths@).to_set() =~= lexical_path_set(manifest.lexical_artifacts@.take(0)));
        while j < manifest.lexical_artifacts.len()
            invariant
                j <= manifest.lexical_artifacts@.len(),
                crate::text::strictly_sorted(pair_keys(lexical_paths@)),
                pair_keys(lexical_paths@).to_set() == lexical_path_set(manifest.lexical_artifacts@.take(j as int)),
                forall|k: int|
                    0 <= k < lexical_paths@.len() ==> resolves_to(
                        verifier,
                        (#[trigger] lexical_paths@[k]).0@,
                        lexical_paths@[k].1,
                    ),
            decreases manifest.lexical_artifacts@.len() - j,
        {
            let p = manifest.lexical_artifacts[j].path.as_str();
            let resolved = verifier.resolve_path(p);
            assert(call_ensures(V::resolve_path, (verifier, p), resolved));
            let ghost before = lexical_paths@;
            let key = p.to_owned();
            let ghost kv = (key, resolved);
            insert_sorted_pair(&mut lexical_paths, key, resolved);
            proof {
                assert(resolves_to(verifier, kv.0@, kv.1));
                assert forall|k: int| 0 <= k < lexical_paths@.len() implies resolves_to(
                    verifier,
                    (#[trigger] lexical_paths@[k]).0@,
                    lexical_paths@[k].1,
                ) by {
                    if lexical_paths@[k] != kv {
                        let m = choose|m: int| 0 <= m < before.len() && before[m] == lexical_paths@[k];
                        assert(resolves_to(verifier, before[m].0@, before[m].1));
                    }
                }
                assert(lexical_path_set(manifest.lexical_artifacts@.take(j + 1)) =~= lexical_path_set(
                    manifest.lexical_artifacts@.take(j as int),
                ).insert(p@)) by {
                    assert(manifest.lexical_artifacts@.take(j + 1)[j as int] == manifest.lexical_artifacts@[j as int]);
                }
            }
            j = j + 1;
        }
        assert(manifest.lexical_artifacts@.take(manifest.lexical_artifacts@.len() as int) =~= manifest.lexical_artifacts@);
        let seq = self.activation_counter + 1;
        self.activation_counter = seq;
        let new_gen = Arc::new(
            ActiveGeneration {
                manifest,
                activation_seq: seq,
                activated_at: now_millis,
                vector_paths,
                lexical_paths,
            },
        );
        let previous_active = self.active.take();
        self.rollback = previous_active;
        self.active = Some(share_generation(&new_gen));
        Ok(new_gen)
    }

    /// Roll back to the previous generation.
    ///
    /// Returns `true` if a previous generation existed and is active again,
    /// `false` if there was none. The rollback slot is emptied either way.
    pub fn rollback(&mut self) -> (ok: bool)
        ensures
            rolled_back(old(self)@, final(self)@, ok),
    {
        match self.rollback.take() {
            Some(prev) => {
                self.active = Some(prev);
                true
            },
            None => false,
        }
    }

    /// Whether the controller has no active generation.
    pub fn is_degraded(&self) -> (b: bool)
        ensures
            b == (self@.active is None),
    {
        self.active.is_none()
    }
}

impl Default for GenerationController {
    fn default() -> (c: Self)
        ensures
            c@.active is None,
            c@.counter == 0,
            c@.rollback is None,
    {
        GenerationController::new()
    }
}

/// Rolling back right after a successful activation restores the
/// generation that was active before it, when there was one.
pub proof fn law_rollback_restores_previous(
    s0: GenerationControllerView,
    s1: GenerationControllerView,
    s2: GenerationControllerView,
    g: Arc<ActiveGeneration>,
    ok: bool,
)
    requires
        activated(s0, s1, g),
        rolled_back(s1, s2, ok),
    ensures
        ok == (s0.active is Some),
        ok ==> s2.active == s0.active,
        !ok ==> s2.active == Some(g),
        s2.rollback is None,
{
}

/// The rollback slot holds one generation: a second rollback in a row
/// always fails and changes nothing active.
pub proof fn law_single_rollback_slot(
    s0: GenerationControllerView,
    s1: GenerationControllerView,
    s2: GenerationControllerView,
    ok1: bool,
    ok2: bool,
)
    requires
        rolled_back(s0, s1, ok1),
        rolled_back(s1, s2, ok2),
    ensures
        !ok2,
        s2.active == s1.active,
{
}


/// The commit-continuity check of a new generation: with no previous
/// generation it passes; with one, it passes exactly when the previous
/// generation ended at the invariant's `previous_high` and the new generation
/// starts at the next commit (a previous high of `u64::MAX` is followed by
/// `u64::MAX`). In particular a previous generation that ended anywhere else
/// fails the check, whatever the new generation's range.
pub proof fn law_commit_continuity_check(
    c: InvariantCheck,
    inv: ActivationInvariant,
    m: GenerationManifest,
    previous: Option<GenerationManifest>,
    previous_high: u64,
)
    requires
        inv.kind == (InvariantKind::CommitContinuity { previous_high }),
        check_matches(c, inv, m, previous),
    ensures
        previous is None ==> c.passed,
        previous matches Some(p) ==> (c.passed <==> (p.commit_range.high == previous_high && m.commit_range.low
            == if previous_high == u64::MAX {
            u64::MAX
        } else {
            (previous_high + 1) as u64
        })),
        previous matches Some(p) && p.commit_range.high != previous_high ==> !c.passed,
{
}

} // verus!
