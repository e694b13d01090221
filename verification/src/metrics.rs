//! Storage operation counters: opens, schema bootstraps, transaction commits
//! and rollbacks, with point-in-time snapshots.

use vstd::prelude::*;

verus! {

/// Point-in-time copy of the storage counters.
#[derive(Debug, Clone, Copy, PartialEq, Eq, Structural)]
pub struct StorageMetricsSnapshot {
    pub opens: u64,
    pub schema_bootstraps: u64,
    pub tx_commits: u64,
    pub tx_rollbacks: u64,
}

/// Storage operation counters. Each counter wraps around at `u64::MAX`.
#[derive(Debug)]
pub struct StorageMetrics {
    opens: u64,
    schema_bootstraps: u64,
    tx_commits: u64,
    tx_rollbacks: u64,
}

impl View for StorageMetrics {
    type V = StorageMetricsSnapshot;

    closed spec fn view(&self) -> StorageMetricsSnapshot {
        StorageMetricsSnapshot {
            opens: self.opens,
            schema_bootstraps: self.schema_bootstraps,
            tx_commits: self.tx_commits,
            tx_rollbacks: self.tx_rollbacks,
        }
    }
}

/// `n + 1`, wrapping to zero past `u64::MAX`.
pub open spec fn bump(n: u64) -> u64 {
    if n == u64::MAX {
        0
    } else {
        (n + 1) as u64
    }
}

impl Default for StorageMetrics {
    fn default() -> (m: Self)
        ensures
            m@ == (StorageMetricsSnapshot { opens: 0, schema_bootstraps: 0, tx_commits: 0, tx_rollbacks: 0 }),
    {
        StorageMetrics { opens: 0, schema_bootstraps: 0, tx_commits: 0, tx_rollbacks: 0 }
    }
}

impl StorageMetrics {
    /// Count a storage open.
    pub fn record_open(&mut self)
        ensures
            final(self)@ == (StorageMetricsSnapshot { opens: bump(old(self)@.opens), ..old(self)@ }),
    {
        self.opens = self.opens.wrapping_add(1);
    }

    /// Count a schema bootstrap.
    pub fn record_schema_bootstrap(&mut self)
        ensures
            final(self)@ == (StorageMetricsSnapshot {
                schema_bootstraps: bump(old(self)@.schema_bootstraps),
                ..old(self)@
            }),
    {
        self.schema_bootstraps = self.schema_bootstraps.wrapping_add(1);
    }

    /// Count a transaction commit.
    pub fn record_commit(&mut self)
        ensures
            final(self)@ == (StorageMetricsSnapshot { tx_commits: bump(old(self)@.tx_commits), ..old(self)@ }),
    {
        self.tx_commits = self.tx_commits.wrapping_add(1);
    }

    /// Count a transaction rollback.
    pub fn record_rollback(&mut self)
        ensures
            final(self)@ == (StorageMetricsSnapshot { tx_rollbacks: bump(old(self)@.tx_rollbacks), ..old(self)@ }),
    {
        self.tx_rollbacks = self.tx_rollbacks.wrapping_add(1);
    }

    /// The current value of every counter.
    pub fn snapshot(&self) -> (s: StorageMetricsSnapshot)
        ensures
            s == self@,
    {
        StorageMetricsSnapshot {
            opens: self.opens,
            schema_bootstraps: self.schema_bootstraps,
            tx_commits: self.tx_commits,
            tx_rollbacks: self.tx_rollbacks,
        }
    }
}

/// Each counter counts only its own operation: recording a commit leaves the
/// other counters as they were.
pub proof fn law_counters_independent(before: StorageMetricsSnapshot, after: StorageMetricsSnapshot)
    requires
        after == (StorageMetricsSnapshot { tx_commits: bump(before.tx_commits), ..before }),
    ensures
        after.opens == before.opens,
        after.schema_bootstraps == before.schema_bootstraps,
        after.tx_rollbacks == before.tx_rollbacks,
        before.tx_commits < u64::MAX ==> after.tx_commits == before.tx_commits + 1,
{
}

} // verus!
