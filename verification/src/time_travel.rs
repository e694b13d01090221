//! Time-travel resolution of historical search generations.
//!
//! Each retained generation covers a contiguous commit range. A
//! [`GenerationHistory`] keeps them ordered by the high bound of that range,
//! prunes them by age and count, and resolves an `as_of` commit sequence to
//! the generation that covered it.

use std::sync::Arc;
use vstd::prelude::*;
use crate::activation::{share_generation, ActiveGeneration};
use crate::generation::CommitRange;

verus! {

// ---------------------------------------------------------------------------
// Retention policy
// ---------------------------------------------------------------------------
/// Controls how many and how long historical generations are retained.
#[derive(Debug, Clone, Copy, PartialEq, Eq, Structural)]
pub struct RetentionPolicy {
    /// Maximum number of generations to keep; the oldest go first.
    pub max_retained: usize,
    /// Maximum age (millis) of a retained generation; `0` disables age pruning.
    pub max_age_ms: u64,
}

impl Default for RetentionPolicy {
    fn default() -> (p: Self)
        ensures
            p.max_retained == 10,
            p.max_age_ms == 3_600_000,
    {
        RetentionPolicy { max_retained: 10, max_age_ms: 3_600_000 }
    }
}

// ---------------------------------------------------------------------------
// Retained generation and query result
// ---------------------------------------------------------------------------
/// A generation kept in history for time-travel queries.
#[derive(Debug)]
pub struct RetainedGeneration {
    /// The generation snapshot.
    pub generation: Arc<ActiveGeneration>,
    /// Unix timestamp (millis) when this generation was retained.
    pub retained_at: u64,
}

impl Clone for RetainedGeneration {
    fn clone(&self) -> (r: Self)
        ensures
            r == *self,
    {
        RetainedGeneration { generation: share_generation(&self.generation), retained_at: self.retained_at }
    }
}

/// Result of a time-travel generation resolution.
#[derive(Debug, Clone, PartialEq, Eq)]
pub enum TimeTravelResult {
    /// Found a generation covering the requested commit sequence.
    Found {
        /// The generation identifier.
        generation_id: String,
        /// Commit range low bound.
        commit_low: u64,
        /// Commit range high bound.
        commit_high: u64,
    },
    /// No retained generation covers the requested commit sequence.
    NotFound {
        /// The requested commit sequence.
        requested_seq: u64,
        /// Closest available commit range (if any).
        closest_range: Option<(u64, u64)>,
    },
    /// The requested commit sequence is covered by the currently active generation.
    ActiveGeneration {
        /// The active generation identifier.
        generation_id: String,
    },
}

// ---------------------------------------------------------------------------
// Model
// ---------------------------------------------------------------------------
/// The commit range of a retained generation.
pub open spec fn range_of(r: RetainedGeneration) -> CommitRange {
    r.generation.manifest.commit_range
}

/// Whether the retained generation covers commit `seq` (`low <= seq <= high`).
pub open spec fn covers(r: RetainedGeneration, seq: u64) -> bool {
    range_of(r).low <= seq && seq <= range_of(r).high
}

/// Retained generations are ordered by the high bound of their commit range.
pub open spec fn sorted_by_high(s: Seq<RetainedGeneration>) -> bool {
    forall|i: int, j: int| 0 <= i <= j < s.len() ==> range_of(s[i]).high <= range_of(s[j]).high
}

/// Position at which an entry with high bound `high` is inserted: the first
/// entry whose high bound is not below `high`.
pub open spec fn insertion_index(s: Seq<RetainedGeneration>, high: u64) -> int
    decreases s.len(),
{
    if s.len() == 0 {
        0
    } else if range_of(s[0]).high < high {
        1 + insertion_index(s.drop_first(), high)
    } else {
        0
    }
}

/// Whether a retained generation is young enough at `now` (always, when age
/// pruning is disabled). A retention time in the future counts as age zero.
pub open spec fn within_age(r: RetainedGeneration, now: u64, max_age_ms: u64) -> bool {
    max_age_ms == 0 || now - r.retained_at <= max_age_ms
}

/// The age predicate as a filter.
pub open spec fn age_filter(now: u64, max_age_ms: u64) -> spec_fn(RetainedGeneration) -> bool {
    |r: RetainedGeneration| within_age(r, now, max_age_ms)
}

/// What pruning keeps: the entries within age, then at most
/// `max_retained` of them, dropping from the front (lowest commit ranges).
pub open spec fn pruned(s: Seq<RetainedGeneration>, policy: RetentionPolicy, now: u64) -> Seq<RetainedGeneration> {
    let aged = s.filter(age_filter(now, policy.max_age_ms));
    if aged.len() > policy.max_retained {
        aged.subrange(aged.len() - policy.max_retained, aged.len() as int)
    } else {
        aged
    }
}

/// The entry that retaining `generation` at `now` adds.
pub open spec fn retained_entry(generation: Arc<ActiveGeneration>, now: u64) -> RetainedGeneration {
    RetainedGeneration { generation, retained_at: now }
}

/// The history after retaining `generation` at `now`.
pub open spec fn after_retain(
    s: Seq<RetainedGeneration>,
    policy: RetentionPolicy,
    generation: Arc<ActiveGeneration>,
    now: u64,
) -> Seq<RetainedGeneration> {
    pruned(
        s.insert(insertion_index(s, generation.manifest.commit_range.high), retained_entry(generation, now)),
        policy,
        now,
    )
}

/// Index of the first retained generation covering `seq`.
pub open spec fn first_covering(s: Seq<RetainedGeneration>, seq: u64) -> Option<int>
    decreases s.len(),
{
    if s.len() == 0 {
        None
    } else if covers(s[0], seq) {
        Some(0)
    } else {
        match first_covering(s.drop_first(), seq) {
            Some(i) => Some(i + 1),
            None => None,
        }
    }
}

/// Distance from `seq` to the commit range of `r` (zero inside it).
pub open spec fn distance(r: RetainedGeneration, seq: u64) -> int {
    let below: int = if seq > range_of(r).high { seq - range_of(r).high } else { 0 };
    let above: int = if range_of(r).low > seq { range_of(r).low - seq } else { 0 };
    if below >= above { below } else { above }
}

/// Index of the first entry at minimal distance from `seq`.
pub open spec fn closest_index(s: Seq<RetainedGeneration>, seq: u64) -> Option<int>
    decreases s.len(),
{
    if s.len() == 0 {
        None
    } else {
        match closest_index(s.drop_last(), seq) {
            None => Some(s.len() - 1),
            Some(i) => if distance(s.last(), seq) < distance(s[i], seq) {
                Some(s.len() - 1)
            } else {
                Some(i)
            },
        }
    }
}

/// The commit range reported as closest to `seq`.
pub open spec fn closest_range(s: Seq<RetainedGeneration>, seq: u64) -> Option<(u64, u64)> {
    match closest_index(s, seq) {
        Some(i) => Some((range_of(s[i]).low, range_of(s[i]).high)),
        None => None,
    }
}

// ---------------------------------------------------------------------------
// Lemmas
// ---------------------------------------------------------------------------
proof fn lemma_insertion_index(s: Seq<RetainedGeneration>, high: u64, p: int)
    requires
        0 <= p <= s.len(),
        forall|k: int| 0 <= k < p ==> range_of(s[k]).high < high,
        p < s.len() ==> range_of(s[p]).high >= high,
    ensures
        insertion_index(s, high) == p,
    decreases p,
{
    if p > 0 {
        lemma_insertion_index(s.drop_first(), high, p - 1);
    }
}

proof fn lemma_first_covering_at(s: Seq<RetainedGeneration>, seq: u64, i: int)
    requires
        0 <= i < s.len(),
        forall|j: int| 0 <= j < i ==> !covers(s[j], seq),
        covers(s[i], seq),
    ensures
        first_covering(s, seq) == Some(i),
    decreases i,
{
    if i > 0 {
        lemma_first_covering_at(s.drop_first(), seq, i - 1);
    }
}

proof fn lemma_first_covering_none(s: Seq<RetainedGeneration>, seq: u64)
    requires
        forall|j: int| 0 <= j < s.len() ==> !covers(s[j], seq),
    ensures
        first_covering(s, seq) is None,
    decreases s.len(),
{
    if s.len() > 0 {
        lemma_first_covering_none(s.drop_first(), seq);
    }
}

proof fn lemma_filter_sorted(s: Seq<RetainedGeneration>, pred: spec_fn(RetainedGeneration) -> bool)
    requires
        sorted_by_high(s),
    ensures
        sorted_by_high(s.filter(pred)),
        forall|k: int| 0 <= k < s.filter(pred).len() ==> #[trigger] s.contains(s.filter(pred)[k]),
    decreases s.len(),
{
    reveal(Seq::filter);
    if s.len() > 0 {
        let rest = s.drop_last();
        lemma_filter_sorted(rest, pred);
        let fr = rest.filter(pred);
        assert forall|k: int| 0 <= k < fr.len() implies range_of(#[trigger] fr[k]).high <= range_of(s.last()).high by {
            assert(rest.contains(fr[k]));
            let j = choose|j: int| 0 <= j < rest.len() && rest[j] == fr[k];
            assert(s[j] == rest[j]);
        }
        assert forall|k: int| 0 <= k < s.filter(pred).len() implies #[trigger] s.contains(s.filter(pred)[k]) by {
            if k < fr.len() {
                assert(rest.contains(fr[k]));
                let j = choose|j: int| 0 <= j < rest.len() && rest[j] == fr[k];
                assert(s[j] == fr[k]);
            } else {
                assert(s[s.len() - 1] == s.last());
            }
        }
    }
}

proof fn lemma_filter_all(s: Seq<RetainedGeneration>, pred: spec_fn(RetainedGeneration) -> bool)
    requires
        forall|k: int| 0 <= k < s.len() ==> pred(#[trigger] s[k]),
    ensures
        s.filter(pred) == s,
    decreases s.len(),
{
    reveal(Seq::filter);
    if s.len() > 0 {
        lemma_filter_all(s.drop_last(), pred);
        assert(s.drop_last().push(s.last()) =~= s);
    }
}

proof fn lemma_closest_index(s: Seq<RetainedGeneration>, seq: u64)
    ensures
        closest_index(s, seq) is None <==> s.len() == 0,
        closest_index(s, seq) matches Some(i) ==> {
            &&& 0 <= i < s.len()
            &&& forall|j: int| 0 <= j < s.len() ==> distance(s[i], seq) <= #[trigger] distance(s[j], seq)
            &&& forall|j: int| 0 <= j < i ==> distance(s[i], seq) < #[trigger] distance(s[j], seq)
        },
    decreases s.len(),
{
    if s.len() > 0 {
        let rest = s.drop_last();
        lemma_closest_index(rest, seq);
        assert forall|j: int| 0 <= j < rest.len() implies rest[j] == s[j] by {}
    }
}

// ---------------------------------------------------------------------------
// Generation history
// ---------------------------------------------------------------------------
/// Abstract state of a generation history.
pub struct GenerationHistoryView {
    /// Retained generations, ordered by commit range high bound.
    pub retained: Seq<RetainedGeneration>,
    /// The retention policy.
    pub policy: RetentionPolicy,
}

/// Manages retained generations for time-travel queries.
pub struct GenerationHistory {
    retained: Vec<RetainedGeneration>,
    policy: RetentionPolicy,
}

impl View for GenerationHistory {
    type V = GenerationHistoryView;

    closed spec fn view(&self) -> GenerationHistoryView {
        GenerationHistoryView { retained: self.retained@, policy: self.policy }
    }
}

/// First position whose high bound is not below `high`, by binary search.
fn lower_bound(v: &Vec<RetainedGeneration>, high: u64) -> (p: usize)
    requires
        sorted_by_high(v@),
    ensures
        p <= v@.len(),
        p == insertion_index(v@, high),
        forall|k: int| 0 <= k < p ==> range_of(#[trigger] v@[k]).high < high,
        forall|k: int| p <= k < v@.len() ==> range_of(#[trigger] v@[k]).high >= high,
{
    let mut lo: usize = 0;
    let mut hi: usize = v.len();
    while lo < hi
        invariant
            lo <= hi <= v@.len(),
            sorted_by_high(v@),
            forall|k: int| 0 <= k < lo ==> range_of(#[trigger] v@[k]).high < high,
            forall|k: int| hi <= k < v@.len() ==> range_of(#[trigger] v@[k]).high >= high,
        decreases hi - lo,
    {
        let mid: usize = lo + (hi - lo) / 2;
        if v[mid].generation.manifest.commit_range.high < high {
            lo = mid + 1;
        } else {
            hi = mid;
        }
    }
    proof {
        lemma_insertion_index(v@, high, lo as int);
    }
    lo
}

/// The entries of `entries` that the policy keeps at `now`.
fn prune_entries(entries: &Vec<RetainedGeneration>, policy: RetentionPolicy, now: u64) -> (out: Vec<
    RetainedGeneration,
>)
    requires
        sorted_by_high(entries@),
    ensures
        out@ == pruned(entries@, policy, now),
        sorted_by_high(out@),
{
    broadcast use Seq::lemma_filter_push;

    let ghost pred = age_filter(now, policy.max_age_ms);
    let mut kept: Vec<RetainedGeneration> = Vec::new();
    let mut i: usize = 0;
    while i < entries.len()
        invariant
            i <= entries@.len(),
            pred == age_filter(now, policy.max_age_ms),
            kept@ == entries@.subrange(0, i as int).filter(pred),
        decreases entries@.len() - i,
    {
        let r = &entries[i];
        let keep = policy.max_age_ms == 0 || now.saturating_sub(r.retained_at) <= policy.max_age_ms;
        proof {
            assert(entries@.subrange(0, i + 1) =~= entries@.subrange(0, i as int).push(entries@[i as int]));
            assert(pred(entries@[i as int]) == keep);
            entries@.subrange(0, i as int).lemma_filter_push(entries@[i as int], pred);
        }
        if keep {
            kept.push(r.clone());
        }
        i = i + 1;
    }
    proof {
        assert(entries@.subrange(0, entries@.len() as int) =~= entries@);
        lemma_filter_sorted(entries@, pred);
    }
    if kept.len() > policy.max_retained {
        let excess: usize = kept.len() - policy.max_retained;
        let tail = kept.split_off(excess);
        tail
    } else {
        kept
    }
}

impl GenerationHistory {
    #[verifier::type_invariant]
    spec fn ordered(self) -> bool {
        sorted_by_high(self.retained@)
    }

    /// Create an empty history with the given retention policy.
    pub fn new(policy: RetentionPolicy) -> (h: Self)
        ensures
            h@.retained == Seq::<RetainedGeneration>::empty(),
            h@.policy == policy,
    {
        GenerationHistory { retained: Vec::new(), policy }
    }

    /// Add a generation to the history: insert it in commit-range order (by
    /// `commit_range.high`, before entries with the same high bound) and
    /// prune per the retention policy.
    pub fn retain(&mut self, generation: Arc<ActiveGeneration>, now_millis: u64)
        ensures
            final(self)@.policy == old(self)@.policy,
            final(self)@.retained == after_retain(old(self)@.retained, old(self)@.policy, generation, now_millis),
            sorted_by_high(final(self)@.retained),
    {
        proof {
            use_type_invariant(&*self);
        }
        let high = generation.manifest.commit_range.high;
        let entry = RetainedGeneration { generation, retained_at: now_millis };
        let pos = lower_bound(&self.retained, high);
        let mut v: Vec<RetainedGeneration> = Vec::new();
        std::mem::swap(&mut v, &mut self.retained);
        let ghost s = v@;
        v.insert(pos, entry);
        proof {
            assert forall|i: int, j: int| 0 <= i <= j < v@.len() implies range_of(v@[i]).high <= range_of(v@[j]).high by {
                if i < pos && j >= pos + 1 {
                    assert(range_of(s[i]).high < high);
                    assert(range_of(s[j - 1]).high >= high);
                } else if i < pos && j == pos {
                    assert(range_of(s[i]).high < high);
                } else if i == pos && j > pos {
                    assert(range_of(s[j - 1]).high >= high);
                } else if i > pos {
                    assert(range_of(s[i - 1]).high <= range_of(s[j - 1]).high);
                }
            }
        }
        let out = prune_entries(&v, self.policy, now_millis);
        self.retained = out;
    }

    /// The retained generation whose commit range includes `as_of_commit_seq`
    /// (`low <= as_of_commit_seq <= high`); the first such one in order.
    pub fn resolve(&self, as_of_commit_seq: u64) -> (r: Option<Arc<ActiveGeneration>>)
        ensures
            match first_covering(self@.retained, as_of_commit_seq) {
                Some(i) => r == Some(self@.retained[i].generation),
                None => r is None,
            },
    {
        match self.find_covering(as_of_commit_seq) {
            Some(i) => Some(share_generation(&self.retained[i].generation)),
            None => None,
        }
    }

    fn find_covering(&self, seq: u64) -> (r: Option<usize>)
        ensures
            r matches Some(k) ==> first_covering(self@.retained, seq) == Some(k as int) && k < self@.retained.len(),
            r is None ==> first_covering(self@.retained, seq) is None,
    {
        let mut i: usize = 0;
        while i < self.retained.len()
            invariant
                i <= self.retained@.len(),
                forall|j: int| 0 <= j < i ==> !covers(#[trigger] self.retained@[j], seq),
            decreases self.retained@.len() - i,
        {
            let range = self.retained[i].generation.manifest.commit_range;
            if range.low <= seq && seq <= range.high {
                proof {
                    lemma_first_covering_at(self.retained@, seq, i as int);
                }
                return Some(i);
            }
            i = i + 1;
        }
        proof {
            lemma_first_covering_none(self.retained@, seq);
        }
        None
    }

    /// Resolve with detailed result information: the covering generation, or
    /// the requested sequence with the closest retained commit range.
    pub fn resolve_detailed(&self, as_of_commit_seq: u64) -> (r: TimeTravelResult)
        ensures
            match first_covering(self@.retained, as_of_commit_seq) {
                Some(i) => r matches TimeTravelResult::Found { generation_id, commit_low, commit_high }
                    && generation_id@ == self@.retained[i].generation.manifest.generation_id@
                    && commit_low == range_of(self@.retained[i]).low
                    && commit_high == range_of(self@.retained[i]).high,
                None => r == (TimeTravelResult::NotFound {
                    requested_seq: as_of_commit_seq,
                    closest_range: closest_range(self@.retained, as_of_commit_seq),
                }),
            },
    {
        if let Some(i) = self.find_covering(as_of_commit_seq) {
            let m = &self.retained[i].generation.manifest;
            return TimeTravelResult::Found {
                generation_id: m.generation_id.clone(),
                commit_low: m.commit_range.low,
                commit_high: m.commit_range.high,
            };
        }
        let ghost s = self.retained@;
        let mut best: Option<usize> = None;
        let mut best_d: u64 = 0;
        let mut i: usize = 0;
        while i < self.retained.len()
            invariant
                i <= s.len(),
                s == self.retained@,
                match best {
                    Some(b) => closest_index(s.subrange(0, i as int), as_of_commit_seq) == Some(b as int)
                        && b < i && best_d == distance(s[b as int], as_of_commit_seq),
                    None => i == 0,
                },
            decreases s.len() - i,
        {
            let range = self.retained[i].generation.manifest.commit_range;
            let below = as_of_commit_seq.saturating_sub(range.high);
            let above = range.low.saturating_sub(as_of_commit_seq);
            let d = if below >= above {
                below
            } else {
                above
            };
            proof {
                let sub = s.subrange(0, i + 1);
                assert(sub.drop_last() =~= s.subrange(0, i as int));
                assert(sub.last() == s[i as int]);
            }
            match best {
                None => {
                    best = Some(i);
                    best_d = d;
                },
                Some(b) => {
                    proof {
                        assert(s.subrange(0, i + 1)[b as int] == s[b as int]);
                    }
                    if d < best_d {
                        best = Some(i);
                        best_d = d;
                    }
                },
            }
            i = i + 1;
        }
        proof {
            assert(s.subrange(0, s.len() as int) =~= s);
        }
        let closest = match best {
            Some(b) => {
                let range = self.retained[b].generation.manifest.commit_range;
                Some((range.low, range.high))
            },
            None => None,
        };
        TimeTravelResult::NotFound { requested_seq: as_of_commit_seq, closest_range: closest }
    }

    /// Explicitly prune per the retention policy; the number pruned.
    pub fn prune(&mut self, now_millis: u64) -> (n: usize)
        ensures
            final(self)@.policy == old(self)@.policy,
            final(self)@.retained == pruned(old(self)@.retained, old(self)@.policy, now_millis),
            n == old(self)@.retained.len() - final(self)@.retained.len(),
            sorted_by_high(final(self)@.retained),
    {
        proof {
            use_type_invariant(&*self);
        }
        let before = self.retained.len();
        let out = prune_entries(&self.retained, self.policy, now_millis);
        proof {
            self.retained@.filter_lemma(age_filter(now_millis, self.policy.max_age_ms));
        }
        let after = out.len();
        self.retained = out;
        before - after
    }

    /// Number of retained generations.
    pub fn retained_count(&self) -> (n: usize)
        ensures
            n == self@.retained.len(),
    {
        self.retained.len()
    }

    /// Identifier and commit range of each retained generation, in order.
    pub fn retained_summary(&self) -> (out: Vec<(String, u64, u64)>)
        ensures
            out@.len() == self@.retained.len(),
            forall|i: int|
                0 <= i < out@.len() ==> {
                    &&& (#[trigger] out@[i]).0@ == self@.retained[i].generation.manifest.generation_id@
                    &&& out@[i].1 == range_of(self@.retained[i]).low
                    &&& out@[i].2 == range_of(self@.retained[i]).high
                },
    {
        let mut out: Vec<(String, u64, u64)> = Vec::new();
        let mut i: usize = 0;
        while i < self.retained.len()
            invariant
                i <= self.retained@.len(),
                out@.len() == i,
                forall|k: int|
                    0 <= k < i ==> {
                        &&& (#[trigger] out@[k]).0@ == self.retained@[k].generation.manifest.generation_id@
                        &&& out@[k].1 == range_of(self.retained@[k]).low
                        &&& out@[k].2 == range_of(self.retained@[k]).high
                    },
            decreases self.retained@.len() - i,
        {
            let m = &self.retained[i].generation.manifest;
            out.push((m.generation_id.clone(), m.commit_range.low, m.commit_range.high));
            i = i + 1;
        }
        out
    }

    /// Clear all retained generations.
    pub fn clear(&mut self)
        ensures
            final(self)@.retained == Seq::<RetainedGeneration>::empty(),
            final(self)@.policy == old(self)@.policy,
    {
        self.retained = Vec::new();
    }
}

impl Default for GenerationHistory {
    fn default() -> (h: Self)
        ensures
            h@.retained == Seq::<RetainedGeneration>::empty(),
            h@.policy == (RetentionPolicy { max_retained: 10, max_age_ms: 3_600_000 }),
    {
        GenerationHistory::new(RetentionPolicy::default())
    }
}

// ---------------------------------------------------------------------------
// Laws
// ---------------------------------------------------------------------------
/// Pruning never leaves more than `max_retained` generations.
pub proof fn law_pruned_within_count(s: Seq<RetainedGeneration>, policy: RetentionPolicy, now: u64)
    ensures
        pruned(s, policy, now).len() <= policy.max_retained,
{
}

/// Every generation that survives pruning is within the maximum age.
pub proof fn law_pruned_within_age(s: Seq<RetainedGeneration>, policy: RetentionPolicy, now: u64)
    ensures
        forall|k: int|
            0 <= k < pruned(s, policy, now).len() ==> within_age(
                #[trigger] pruned(s, policy, now)[k],
                now,
                policy.max_age_ms,
            ),
{
    let pred = age_filter(now, policy.max_age_ms);
    s.filter_lemma(pred);
    let aged = s.filter(pred);
    if aged.len() > policy.max_retained {
        let p = pruned(s, policy, now);
        assert forall|k: int| 0 <= k < p.len() implies within_age(#[trigger] p[k], now, policy.max_age_ms) by {
            assert(p[k] == aged[k + aged.len() - policy.max_retained]);
            assert(pred(aged[k + aged.len() - policy.max_retained]));
        }
    }
}

/// Count pruning drops the oldest commit ranges first: every generation kept
/// has a high bound at least that of every in-age generation dropped.
pub proof fn law_pruning_keeps_newest(s: Seq<RetainedGeneration>, policy: RetentionPolicy, now: u64)
    requires
        sorted_by_high(s),
    ensures
        sorted_by_high(pruned(s, policy, now)),
        ({
            let aged = s.filter(age_filter(now, policy.max_age_ms));
            let kept = pruned(s, policy, now);
            forall|d: int, k: int|
                0 <= d < aged.len() - kept.len() && 0 <= k < kept.len() ==> range_of(#[trigger] aged[d]).high
                    <= range_of(#[trigger] kept[k]).high
        }),
{
    lemma_filter_sorted(s, age_filter(now, policy.max_age_ms));
}

/// Retaining into a history with room and no age limit keeps every generation,
/// the new one included, in commit-range order.
pub proof fn law_retain_with_room_keeps_all(
    s: Seq<RetainedGeneration>,
    policy: RetentionPolicy,
    generation: Arc<ActiveGeneration>,
    now: u64,
)
    requires
        policy.max_age_ms == 0,
        s.len() < policy.max_retained,
    ensures
        after_retain(s, policy, generation, now) == s.insert(
            insertion_index(s, generation.manifest.commit_range.high),
            retained_entry(generation, now),
        ),
{
    let ins = s.insert(insertion_index(s, generation.manifest.commit_range.high), retained_entry(generation, now));
    lemma_insertion_index_bound(s, generation.manifest.commit_range.high);
    lemma_filter_all(ins, age_filter(now, policy.max_age_ms));
}

proof fn lemma_insertion_index_bound(s: Seq<RetainedGeneration>, high: u64)
    ensures
        0 <= insertion_index(s, high) <= s.len(),
    decreases s.len(),
{
    if s.len() > 0 {
        lemma_insertion_index_bound(s.drop_first(), high);
    }
}

/// A resolved generation covers the requested sequence and no earlier one
/// does; an unresolved sequence is covered by no retained generation.
pub proof fn law_resolve_covers(s: Seq<RetainedGeneration>, seq: u64)
    ensures
        first_covering(s, seq) matches Some(i) ==> 0 <= i < s.len() && covers(s[i], seq) && forall|j: int|
            0 <= j < i ==> !covers(#[trigger] s[j], seq),
        first_covering(s, seq) is None ==> forall|j: int| 0 <= j < s.len() ==> !covers(#[trigger] s[j], seq),
    decreases s.len(),
{
    if s.len() > 0 {
        law_resolve_covers(s.drop_first(), seq);
        assert forall|j: int| 1 <= j < s.len() implies s[j] == s.drop_first()[j - 1] by {}
    }
}

/// The closest range reported is at minimal distance from the request, and the
/// first such one; there is one exactly when the history is not empty.
pub proof fn law_closest_is_nearest(s: Seq<RetainedGeneration>, seq: u64)
    ensures
        closest_index(s, seq) is None <==> s.len() == 0,
        closest_index(s, seq) matches Some(i) ==> {
            &&& 0 <= i < s.len()
            &&& forall|j: int| 0 <= j < s.len() ==> distance(s[i], seq) <= #[trigger] distance(s[j], seq)
            &&& forall|j: int| 0 <= j < i ==> distance(s[i], seq) < #[trigger] distance(s[j], seq)
        },
{
    lemma_closest_index(s, seq);
}


/// How far commit `seq` lies from the range `[lo, hi]`: the larger of how
/// far it lies above `hi` and how far below `lo`, and zero inside the range.
/// A commit no retained range covers is reported with a retained range of
/// least gap; among equal gaps the earliest retained one; with nothing
/// retained, none.
pub proof fn law_closest_range_has_least_gap(s: Seq<RetainedGeneration>, seq: u64)
    ensures
        closest_range(s, seq) is None <==> s.len() == 0,
        closest_range(s, seq) matches Some((lo, hi)) ==> exists|i: int|
            0 <= i < s.len() && range_of(s[i]).low == lo && range_of(s[i]).high == hi && (forall|j: int|
                0 <= j < s.len() ==> {
                    let above_i: int = if seq > hi { seq - hi } else { 0 };
                    let below_i: int = if lo > seq { lo - seq } else { 0 };
                    let above_j: int = if seq > range_of(#[trigger] s[j]).high { seq - range_of(s[j]).high } else { 0 };
                    let below_j: int = if range_of(s[j]).low > seq { range_of(s[j]).low - seq } else { 0 };
                    let gi: int = if above_i >= below_i { above_i } else { below_i };
                    let gj: int = if above_j >= below_j { above_j } else { below_j };
                    &&& gi <= gj
                    &&& j < i ==> gi < gj
                }),
{
    lemma_closest_index(s, seq);
    if let Some(i) = closest_index(s, seq) {
        assert(0 <= i < s.len());
        let lo = range_of(s[i]).low;
        let hi = range_of(s[i]).high;
        assert forall|j: int| 0 <= j < s.len() implies {
            let above_i: int = if seq > hi { seq - hi } else { 0 };
            let below_i: int = if lo > seq { lo - seq } else { 0 };
            let above_j: int = if seq > range_of(#[trigger] s[j]).high { seq - range_of(s[j]).high } else { 0 };
            let below_j: int = if range_of(s[j]).low > seq { range_of(s[j]).low - seq } else { 0 };
            let gi: int = if above_i >= below_i { above_i } else { below_i };
            let gj: int = if above_j >= below_j { above_j } else { below_j };
            &&& gi <= gj
            &&& j < i ==> gi < gj
        } by {
            assert(distance(s[i], seq) <= distance(s[j], seq));
        }
    }
}

} // verus!
