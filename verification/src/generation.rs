//! Generation manifests: the description of one built search generation,
//! its artifacts, repair sidecars and activation invariants, with the
//! structural validation that gates activation.

use vstd::prelude::*;
use crate::text::str_eq;

verus! {

/// Contiguous range of commit sequence numbers covered by a generation.
#[derive(Debug, Clone, Copy, PartialEq, Eq, Structural)]
pub struct CommitRange {
    /// Inclusive low bound.
    pub low: u64,
    /// Inclusive high bound.
    pub high: u64,
}

/// Numeric format of stored vectors.
#[derive(Debug, Clone, Copy, PartialEq, Eq, Structural)]
pub enum QuantizationFormat {
    /// 32-bit floats.
    F32,
    /// 16-bit floats.
    F16,
}

/// Embedder tier a vector artifact was produced by.
#[derive(Debug, Clone, Copy, PartialEq, Eq, Structural)]
pub enum EmbedderTierTag {
    /// Fast tier.
    Fast,
    /// Quality tier.
    Quality,
}

/// Identity of an embedding model revision.
#[derive(Debug, PartialEq, Eq)]
pub struct EmbedderRevision {
    /// Model name.
    pub model_name: String,
    /// Hash of the model weights.
    pub weights_hash: String,
    /// Embedding dimension.
    pub dimension: usize,
    /// Vector quantization.
    pub quantization: QuantizationFormat,
}

impl Clone for EmbedderRevision {
    fn clone(&self) -> (r: Self)
        ensures
            r == *self,
    {
        EmbedderRevision {
            model_name: self.model_name.clone(),
            weights_hash: self.weights_hash.clone(),
            dimension: self.dimension,
            quantization: self.quantization,
        }
    }
}

/// Whether two embedder revisions are the same revision (all fields equal).
pub open spec fn same_revision(a: EmbedderRevision, b: EmbedderRevision) -> bool {
    &&& a.model_name@ == b.model_name@
    &&& a.weights_hash@ == b.weights_hash@
    &&& a.dimension == b.dimension
    &&& a.quantization == b.quantization
}

/// Compare two embedder revisions field by field.
pub fn revisions_equal(a: &EmbedderRevision, b: &EmbedderRevision) -> (r: bool)
    ensures
        r == same_revision(*a, *b),
{
    str_eq(a.model_name.as_str(), b.model_name.as_str()) && str_eq(
        a.weights_hash.as_str(),
        b.weights_hash.as_str(),
    ) && a.dimension == b.dimension && a.quantization == b.quantization
}

/// A vector index artifact of a generation.
#[derive(Debug, Clone, PartialEq, Eq)]
pub struct VectorArtifact {
    /// Manifest-relative path.
    pub path: String,
    /// Size in bytes.
    pub size_bytes: u64,
    /// Expected checksum (hex).
    pub checksum: String,
    /// Number of vectors stored.
    pub vector_count: u64,
    /// Vector dimension.
    pub dimension: usize,
    /// Tier of the embedder that produced the vectors.
    pub embedder_tier: EmbedderTierTag,
}

/// A lexical index artifact of a generation.
#[derive(Debug, Clone, PartialEq, Eq)]
pub struct LexicalArtifact {
    /// Manifest-relative path.
    pub path: String,
    /// Size in bytes.
    pub size_bytes: u64,
    /// Expected checksum (hex).
    pub checksum: String,
    /// Number of documents indexed.
    pub document_count: u64,
}

/// Where the repair symbols protecting one artifact live.
#[derive(Debug, Clone, PartialEq, Eq)]
pub struct RepairDescriptor {
    /// Path of the protected artifact (manifest-relative).
    pub protected_artifact: String,
    /// Path of the `.fec` sidecar.
    pub sidecar_path: String,
    /// Number of source symbols.
    pub source_symbols: u32,
    /// Number of repair symbols.
    pub repair_symbols: u32,
}

/// Kind of an activation invariant.
#[derive(Debug, Clone, PartialEq, Eq)]
pub enum InvariantKind {
    /// Every vector and lexical artifact passes verification.
    AllArtifactsVerified,
    /// The runtime embedder of every tier matches the manifest.
    EmbedderRevisionMatch,
    /// The vector artifacts hold `expected_total` vectors in all.
    VectorCountConsistency { expected_total: u64 },
    /// The generation follows the previous one's commit range.
    CommitContinuity { previous_high: u64 },
    /// A deployment-defined check evaluated by the verifier.
    Custom { check_name: String },
}

/// An invariant that must hold before a generation is activated.
#[derive(Debug, Clone, PartialEq, Eq)]
pub struct ActivationInvariant {
    /// Stable invariant id.
    pub id: String,
    /// Human-readable description.
    pub description: String,
    /// What is checked.
    pub kind: InvariantKind,
}

/// Description of one built search generation.
#[derive(Debug, Clone, PartialEq, Eq)]
pub struct GenerationManifest {
    /// Manifest schema version.
    pub schema_version: u32,
    /// Generation identifier.
    pub generation_id: String,
    /// Hash of the manifest content.
    pub manifest_hash: String,
    /// Commit range covered.
    pub commit_range: CommitRange,
    /// Build start (Unix millis).
    pub build_started_at: u64,
    /// Build completion (Unix millis).
    pub build_completed_at: u64,
    /// Embedder revision per tier key, in key order.
    pub embedders: Vec<(String, EmbedderRevision)>,
    /// Vector artifacts.
    pub vector_artifacts: Vec<VectorArtifact>,
    /// Lexical artifacts.
    pub lexical_artifacts: Vec<LexicalArtifact>,
    /// Repair sidecar descriptors.
    pub repair_descriptors: Vec<RepairDescriptor>,
    /// Invariants checked before activation.
    pub activation_invariants: Vec<ActivationInvariant>,
    /// Total documents in the generation.
    pub total_documents: u64,
    /// Free-form metadata pairs, in key order.
    pub metadata: Vec<(String, String)>,
}

/// One structural problem found in a manifest.
#[derive(Debug, Clone, PartialEq, Eq)]
pub struct ValidationFinding {
    /// Offending field.
    pub field: String,
    /// What is wrong.
    pub message: String,
}

/// Outcome of structural manifest validation.
#[derive(Debug, Clone, PartialEq, Eq)]
pub struct ValidationResult {
    /// Problems found; empty when the manifest is valid.
    pub findings: Vec<ValidationFinding>,
}

impl ValidationResult {
    /// Whether no problem was found.
    pub fn is_valid(&self) -> (b: bool)
        ensures
            b == (self.findings@.len() == 0),
    {
        self.findings.len() == 0
    }

    /// The problems found.
    pub fn errors(&self) -> (r: &Vec<ValidationFinding>)
        ensures
            r == &self.findings,
    {
        &self.findings
    }
}

/// Message for an empty generation id.
pub open spec fn empty_id_message() -> Seq<char> {
    "generation_id must not be empty"@
}

/// Message for an inverted commit range.
pub open spec fn inverted_range_message() -> Seq<char> {
    "commit_range.low must not exceed commit_range.high"@
}

/// Whether a manifest is structurally sound: it has a generation id and its
/// commit range is not inverted.
pub open spec fn manifest_is_valid(m: GenerationManifest) -> bool {
    m.generation_id@.len() > 0 && m.commit_range.low <= m.commit_range.high
}

/// The messages of the problems validation finds in `m`, in order.
pub open spec fn manifest_finding_messages(m: GenerationManifest) -> Seq<Seq<char>> {
    (if m.generation_id@.len() == 0 {
        seq![empty_id_message()]
    } else {
        Seq::empty()
    }) + (if m.commit_range.low > m.commit_range.high {
        seq![inverted_range_message()]
    } else {
        Seq::empty()
    })
}

/// Validate the structure of a manifest.
pub fn validate_manifest(m: &GenerationManifest) -> (r: ValidationResult)
    ensures
        r.findings@.len() == 0 <==> manifest_is_valid(*m),
        r.findings@.len() == (if m.generation_id@.len() == 0 { 1nat } else { 0 }) + (if m.commit_range.low
            > m.commit_range.high { 1nat } else { 0 }),
        m.generation_id@.len() == 0 ==> r.findings@[0].message@ == empty_id_message(),
        m.commit_range.low > m.commit_range.high ==> r.findings@[r.findings@.len()
            - 1].message@ == inverted_range_message(),
        r.findings@.map_values(|f: ValidationFinding| f.message@) == manifest_finding_messages(*m),
{
    let mut findings: Vec<ValidationFinding> = Vec::new();
    if m.generation_id.as_str().unicode_len() == 0 {
        proof {
            reveal_strlit("generation_id");
            reveal_strlit("generation_id must not be empty");
        }
        findings.push(
            ValidationFinding {
                field: String::from_str("generation_id"),
                message: String::from_str("generation_id must not be empty"),
            },
        );
    }
    if m.commit_range.low > m.commit_range.high {
        proof {
            reveal_strlit("commit_range");
            reveal_strlit("commit_range.low must not exceed commit_range.high");
        }
        findings.push(
            ValidationFinding {
                field: String::from_str("commit_range"),
                message: String::from_str("commit_range.low must not exceed commit_range.high"),
            },
        );
    }
    assert(findings@.map_values(|f: ValidationFinding| f.message@) =~= manifest_finding_messages(*m));
    ValidationResult { findings }
}

/// The descriptor protecting `path`, if the manifest lists one: the first
/// whose protected artifact is `path`.
pub open spec fn descriptor_index(ds: Seq<RepairDescriptor>, path: Seq<char>) -> Option<int>
    decreases ds.len(),
{
    if ds.len() == 0 {
        None
    } else if ds[0].protected_artifact@ == path {
        Some(0)
    } else {
        match descriptor_index(ds.drop_first(), path) {
            Some(i) => Some(i + 1),
            None => None,
        }
    }
}

proof fn lemma_descriptor_index_step(ds: Seq<RepairDescriptor>, path: Seq<char>, i: int)
    requires
        0 <= i < ds.len(),
        forall|j: int| 0 <= j < i ==> ds[j].protected_artifact@ != path,
    ensures
        descriptor_index(ds, path) == (if ds[i].protected_artifact@ == path {
            Some(i)
        } else {
            match descriptor_index(ds.subrange(i + 1, ds.len() as int), path) {
                Some(k) => Some(k + i + 1),
                None => None,
            }
        }),
    decreases i,
{
    if i > 0 {
        assert(ds[0].protected_artifact@ != path);
        let t = ds.drop_first();
        lemma_descriptor_index_step(t, path, i - 1);
        assert(t.subrange(i, t.len() as int) =~= ds.subrange(i + 1, ds.len() as int));
    }
}

proof fn lemma_descriptor_index_none(ds: Seq<RepairDescriptor>, path: Seq<char>)
    requires
        forall|j: int| 0 <= j < ds.len() ==> ds[j].protected_artifact@ != path,
    ensures
        descriptor_index(ds, path) is None,
    decreases ds.len(),
{
    if ds.len() > 0 {
        lemma_descriptor_index_none(ds.drop_first(), path);
    }
}

/// Find the repair descriptor for `path`.
pub fn find_descriptor(ds: &Vec<RepairDescriptor>, path: &str) -> (r: Option<usize>)
    ensures
        r matches Some(i) ==> i < ds@.len() && descriptor_index(ds@, path@) == Some(i as int),
        match descriptor_index(ds@, path@) {
            Some(i) => r == Some(i as usize),
            None => r is None,
        },
{
    let mut i: usize = 0;
    while i < ds.len()
        invariant
            i <= ds@.len(),
            forall|j: int| 0 <= j < i ==> ds@[j].protected_artifact@ != path@,
        decreases ds@.len() - i,
    {
        if str_eq(ds[i].protected_artifact.as_str(), path) {
            proof {
                lemma_descriptor_index_step(ds@, path@, i as int);
            }
            return Some(i);
        }
        i = i + 1;
    }
    proof {
        lemma_descriptor_index_none(ds@, path@);
    }
    None
}

} // verus!
