//! Database connection pool: configuration, statistics, errors, the pool
//! over a connection manager, and the bookkeeping beneath it.
//!
//! [`PoolCore`] holds the idle connections (oldest first) with their creation
//! and last-use times, the total number of connections (idle and checked
//! out), whether the pool is closed, and the lifetime counters. Each step of
//! acquiring, returning, discarding, closing, evicting and warming up is a
//! method that decides what happens; [`DbPool`] runs those steps against a
//! [`ConnectionManager`] (connect, validate, disconnect). Times are
//! milliseconds on the caller's monotonic clock.

use std::time::Duration;
use vstd::prelude::*;

verus! {

// ---------------------------------------------------------------------------
// Configuration
// ---------------------------------------------------------------------------
/// The duration of `secs` seconds, as `Duration::from_secs` builds it.
pub uninterp spec fn secs_duration(secs: u64) -> Duration;

/// The whole milliseconds in `d`, as `Duration::as_millis` counts them.
pub uninterp spec fn duration_millis(d: Duration) -> u128;

/// `Duration::from_secs`: the duration of exactly `secs` seconds; the same
/// argument always gives the same duration, which holds `secs * 1000` whole
/// milliseconds.
#[verifier::external_body]
fn duration_from_secs(secs: u64) -> (d: Duration)
    ensures
        d == secs_duration(secs),
        duration_millis(d) == secs * 1000,
{
    Duration::from_secs(secs)
}

/// `Duration::as_millis`: the whole milliseconds in `d`.
#[verifier::external_body]
fn duration_as_millis(d: &Duration) -> (ms: u128)
    ensures
        ms == duration_millis(*d),
{
    d.as_millis()
}

/// `ms` as a `u64`, saturating at `u64::MAX`.
pub open spec fn clamp_millis(ms: u128) -> u64 {
    if ms > u64::MAX as u128 {
        u64::MAX
    } else {
        ms as u64
    }
}

fn millis_u64(d: &Duration) -> (ms: u64)
    ensures
        ms == clamp_millis(duration_millis(*d)),
{
    let m = duration_as_millis(d);
    if m > u64::MAX as u128 {
        u64::MAX
    } else {
        m as u64
    }
}

/// Configuration for the database connection pool.
#[derive(Debug, Clone, Copy)]
pub struct DbPoolConfig {
    /// Minimum number of idle connections to maintain.
    pub min_idle: usize,
    /// Maximum number of connections in the pool.
    pub max_size: usize,
    /// Validate connections before handing them out.
    pub validate_on_checkout: bool,
    /// Maximum time a connection can be idle before eviction.
    pub idle_timeout: Duration,
    /// Maximum lifetime of a connection.
    pub max_lifetime: Duration,
    /// Maximum time to wait when acquiring a connection.
    pub connection_timeout: Duration,
}

/// Whether `c` is the default configuration, but for its maximum size.
pub open spec fn defaults_but_size(c: DbPoolConfig) -> bool {
    &&& c.min_idle == 1
    &&& c.validate_on_checkout
    &&& c.idle_timeout == secs_duration(600)
    &&& c.max_lifetime == secs_duration(3600)
    &&& c.connection_timeout == secs_duration(30)
}

impl Default for DbPoolConfig {
    fn default() -> (c: Self)
        ensures
            defaults_but_size(c),
            c.max_size == 10,
    {
        DbPoolConfig {
            min_idle: 1,
            max_size: 10,
            validate_on_checkout: true,
            idle_timeout: duration_from_secs(600),
            max_lifetime: duration_from_secs(3600),
            connection_timeout: duration_from_secs(30),
        }
    }
}

impl DbPoolConfig {
    /// The default configuration with the given maximum size.
    pub fn with_max_size(max_size: usize) -> (c: Self)
        ensures
            defaults_but_size(c),
            c.max_size == max_size,
    {
        let mut c = DbPoolConfig::default();
        c.max_size = max_size;
        c
    }

    /// Set the minimum idle connections.
    pub fn min_idle(self, min_idle: usize) -> (c: Self)
        ensures
            c == (DbPoolConfig { min_idle, ..self }),
    {
        let mut c = self;
        c.min_idle = min_idle;
        c
    }

    /// Set the maximum pool size.
    pub fn max_size(self, max_size: usize) -> (c: Self)
        ensures
            c == (DbPoolConfig { max_size, ..self }),
    {
        let mut c = self;
        c.max_size = max_size;
        c
    }

    /// Enable or disable checkout validation.
    pub fn validate_on_checkout(self, enabled: bool) -> (c: Self)
        ensures
            c == (DbPoolConfig { validate_on_checkout: enabled, ..self }),
    {
        let mut c = self;
        c.validate_on_checkout = enabled;
        c
    }

    /// Set the idle timeout.
    pub fn idle_timeout(self, timeout: Duration) -> (c: Self)
        ensures
            c == (DbPoolConfig { idle_timeout: timeout, ..self }),
    {
        let mut c = self;
        c.idle_timeout = timeout;
        c
    }

    /// Set the maximum connection lifetime.
    pub fn max_lifetime(self, lifetime: Duration) -> (c: Self)
        ensures
            c == (DbPoolConfig { max_lifetime: lifetime, ..self }),
    {
        let mut c = self;
        c.max_lifetime = lifetime;
        c
    }

    /// Set the connection acquisition timeout.
    pub fn connection_timeout(self, timeout: Duration) -> (c: Self)
        ensures
            c == (DbPoolConfig { connection_timeout: timeout, ..self }),
    {
        let mut c = self;
        c.connection_timeout = timeout;
        c
    }
}

// ---------------------------------------------------------------------------
// Statistics and errors
// ---------------------------------------------------------------------------
/// Statistics for a database connection pool.
#[derive(Debug, Clone, Copy, PartialEq, Eq, Structural)]
pub struct DbPoolStats {
    /// Number of idle connections.
    pub idle: usize,
    /// Number of active (checked out) connections.
    pub active: usize,
    /// Total connections (idle + active).
    pub total: usize,
    /// Maximum pool size.
    pub max_size: usize,
    /// Total successful acquisitions.
    pub total_acquisitions: u64,
    /// Total connections created.
    pub total_creates: u64,
    /// Total connections discarded.
    pub total_discards: u64,
    /// Total timeout errors.
    pub total_timeouts: u64,
    /// Total validation failures.
    pub total_validation_failures: u64,
}

impl Default for DbPoolStats {
    fn default() -> (s: Self)
        ensures
            s == (DbPoolStats {
                idle: 0,
                active: 0,
                total: 0,
                max_size: 0,
                total_acquisitions: 0,
                total_creates: 0,
                total_discards: 0,
                total_timeouts: 0,
                total_validation_failures: 0,
            }),
    {
        DbPoolStats {
            idle: 0,
            active: 0,
            total: 0,
            max_size: 0,
            total_acquisitions: 0,
            total_creates: 0,
            total_discards: 0,
            total_timeouts: 0,
            total_validation_failures: 0,
        }
    }
}

/// Error returned by pool operations.
#[derive(Debug)]
pub enum DbPoolError<E> {
    /// Pool is closed.
    Closed,
    /// Pool is at capacity.
    Full,
    /// Connection timed out.
    Timeout,
    /// Connection creation failed.
    Connect(E),
    /// Connection validation failed.
    ValidationFailed,
}

/// The display text of a pool error whose connection error displays as
/// `source_text`.
pub open spec fn pool_error_text<E>(e: DbPoolError<E>, source_text: Seq<char>) -> Seq<char> {
    match e {
        DbPoolError::Closed => "pool closed"@,
        DbPoolError::Full => "pool at capacity"@,
        DbPoolError::Timeout => "connection acquisition timed out"@,
        DbPoolError::Connect(_) => "connection failed: "@ + source_text,
        DbPoolError::ValidationFailed => "connection validation failed"@,
    }
}

impl<E> DbPoolError<E> {
    /// The display text of the error; `source_text` is how the connection
    /// error of a `Connect` error displays.
    pub fn display_with(&self, source_text: &str) -> (s: String)
        ensures
            s@ == pool_error_text(*self, source_text@),
    {
        match self {
            DbPoolError::Closed => String::from_str("pool closed"),
            DbPoolError::Full => String::from_str("pool at capacity"),
            DbPoolError::Timeout => String::from_str("connection acquisition timed out"),
            DbPoolError::Connect(_) => {
                let mut s = String::from_str("connection failed: ");
                crate::text::push_str(&mut s, source_text);
                s
            },
            DbPoolError::ValidationFailed => String::from_str("connection validation failed"),
        }
    }

    /// The underlying connection error, for a `Connect` error.
    pub fn source(&self) -> (r: Option<&E>)
        ensures
            match *self {
                DbPoolError::Connect(e) => r == Some(&e),
                _ => r is None,
            },
    {
        match self {
            DbPoolError::Connect(e) => Some(e),
            _ => None,
        }
    }
}

// ---------------------------------------------------------------------------
// Pool bookkeeping
// ---------------------------------------------------------------------------
/// An idle connection with its creation and last-use times.
#[derive(Debug)]
pub struct IdleEntry<C> {
    pub conn: C,
    pub created_at: u64,
    pub last_used: u64,
}

/// The limits a pool enforces: capacity, and lifetime and idle time in ms.
#[derive(Debug, Clone, Copy, PartialEq, Eq, Structural)]
pub struct PoolLimits {
    pub max_size: usize,
    pub max_lifetime_ms: u64,
    pub idle_timeout_ms: u64,
}

/// The lifetime counters of a pool; each wraps around at `u64::MAX`.
#[derive(Debug, Clone, Copy, PartialEq, Eq, Structural)]
pub struct PoolCounters {
    pub total_acquisitions: u64,
    pub total_creates: u64,
    pub total_discards: u64,
    pub total_timeouts: u64,
    pub total_validation_failures: u64,
}

/// `n + k` modulo 2^64.
pub open spec fn wrap_add(n: u64, k: nat) -> u64 {
    ((n + k) % 0x1_0000_0000_0000_0000int) as u64
}

/// Abstract state of a pool.
pub struct PoolCoreView<C> {
    pub idle: Seq<IdleEntry<C>>,
    pub total: usize,
    pub closed: bool,
    pub counters: PoolCounters,
    pub limits: PoolLimits,
}

/// Whether an idle entry must not be handed out at `now`: older than the
/// maximum lifetime, or idle longer than the idle timeout (a time before the
/// entry's counts as no time).
pub open spec fn is_stale<C>(e: IdleEntry<C>, limits: PoolLimits, now: u64) -> bool {
    now - e.created_at > limits.max_lifetime_ms || now - e.last_used > limits.idle_timeout_ms
}

/// `n - k`, stopping at zero.
pub open spec fn sat_sub(n: usize, k: nat) -> usize {
    if n >= k {
        (n - k) as usize
    } else {
        0
    }
}

/// What acquiring decides next.
pub enum Checkout<C> {
    /// The pool is closed.
    Closed,
    /// The oldest idle connection, fit to hand out (after validation when
    /// configured).
    Reuse { conn: C, created_at: u64 },
    /// The oldest idle connection was stale: it left the pool and must be
    /// disconnected; acquiring goes on.
    Discard { conn: C },
    /// No idle connection: a slot is reserved; connect a new connection.
    Create,
    /// No idle connection and no capacity left.
    Full,
}

/// Bookkeeping of a connection pool.
#[derive(Debug)]
pub struct PoolCore<C> {
    idle: Vec<IdleEntry<C>>,
    total: usize,
    closed: bool,
    stats: PoolCounters,
    limits: PoolLimits,
}

impl<C> View for PoolCore<C> {
    type V = PoolCoreView<C>;

    closed spec fn view(&self) -> PoolCoreView<C> {
        PoolCoreView {
            idle: self.idle@,
            total: self.total,
            closed: self.closed,
            counters: self.stats,
            limits: self.limits,
        }
    }
}

fn wrapping_inc(n: u64, k: u64) -> (r: u64)
    ensures
        r == wrap_add(n, k as nat),
{
    let r = n.wrapping_add(k);
    assert(r == wrap_add(n, k as nat)) by (nonlinear_arith)
        requires
            r == (if n + k > u64::MAX { (n + k - 0x1_0000_0000_0000_0000) as u64 } else { (n + k) as u64 }),
    ;
    r
}

impl<C> PoolCore<C> {
    /// An open, empty pool with the given limits.
    pub fn new(limits: PoolLimits) -> (p: Self)
        ensures
            p@.idle == Seq::<IdleEntry<C>>::empty(),
            p@.total == 0,
            !p@.closed,
            p@.counters == (PoolCounters {
                total_acquisitions: 0,
                total_creates: 0,
                total_discards: 0,
                total_timeouts: 0,
                total_validation_failures: 0,
            }),
            p@.limits == limits,
    {
        PoolCore {
            idle: Vec::new(),
            total: 0,
            closed: false,
            stats: PoolCounters { total_acquisitions: 0, total_creates: 0, total_discards: 0, total_timeouts: 0, total_validation_failures: 0 },
            limits,
        }
    }

    /// Current statistics: idle, active (total less idle, at least zero),
    /// total, capacity and the counters.
    pub fn stats(&self) -> (s: DbPoolStats)
        ensures
            s.idle == self@.idle.len(),
            s.active == sat_sub(self@.total, self@.idle.len()),
            s.total == self@.total,
            s.max_size == self@.limits.max_size,
            s.total_acquisitions == self@.counters.total_acquisitions,
            s.total_creates == self@.counters.total_creates,
            s.total_discards == self@.counters.total_discards,
            s.total_timeouts == self@.counters.total_timeouts,
            s.total_validation_failures == self@.counters.total_validation_failures,
    {
        DbPoolStats {
            idle: self.idle.len(),
            active: self.total.saturating_sub(self.idle.len()),
            total: self.total,
            max_size: self.limits.max_size,
            total_acquisitions: self.stats.total_acquisitions,
            total_creates: self.stats.total_creates,
            total_discards: self.stats.total_discards,
            total_timeouts: self.stats.total_timeouts,
            total_validation_failures: self.stats.total_validation_failures,
        }
    }

    /// Whether the pool is closed.
    pub fn is_closed(&self) -> (b: bool)
        ensures
            b == self@.closed,
    {
        self.closed
    }

    /// Decide the next step of acquiring a connection at `now`: fail when
    /// closed; else take the oldest idle connection, to discard when stale
    /// (one connection fewer, one discard more) or to hand out; else reserve
    /// a slot to connect when under capacity; else report the pool full.
    pub fn begin_checkout(&mut self, now: u64) -> (step: Checkout<C>)
        ensures
            final(self)@.closed == old(self)@.closed,
            final(self)@.limits == old(self)@.limits,
            old(self)@.closed ==> step is Closed && final(self)@ == old(self)@,
            !old(self)@.closed && old(self)@.idle.len() > 0 ==> {
                let e = old(self)@.idle[0];
                &&& final(self)@.idle == old(self)@.idle.drop_first()
                &&& if is_stale(e, old(self)@.limits, now) {
                    &&& step == (Checkout::Discard { conn: e.conn })
                    &&& final(self)@.total == sat_sub(old(self)@.total, 1)
                    &&& final(self)@.counters == (PoolCounters {
                        total_discards: wrap_add(old(self)@.counters.total_discards, 1),
                        ..old(self)@.counters
                    })
                } else {
                    &&& step == (Checkout::Reuse { conn: e.conn, created_at: e.created_at })
                    &&& final(self)@.total == old(self)@.total
                    &&& final(self)@.counters == old(self)@.counters
                }
            },
            !old(self)@.closed && old(self)@.idle.len() == 0 ==> {
                &&& final(self)@.idle == old(self)@.idle
                &&& final(self)@.counters == old(self)@.counters
                &&& if old(self)@.total < old(self)@.limits.max_size {
                    step is Create && final(self)@.total == old(self)@.total + 1
                } else {
                    step is Full && final(self)@.total == old(self)@.total
                }
            },
    {
        if self.closed {
            return Checkout::Closed;
        }
        if self.idle.len() > 0 {
            let e = self.idle.remove(0);
            let age = now.saturating_sub(e.created_at);
            let idle_for = now.saturating_sub(e.last_used);
            if age > self.limits.max_lifetime_ms || idle_for > self.limits.idle_timeout_ms {
                self.total = self.total.saturating_sub(1);
                self.stats.total_discards = wrapping_inc(self.stats.total_discards, 1);
                return Checkout::Discard { conn: e.conn };
            }
            return Checkout::Reuse { conn: e.conn, created_at: e.created_at };
        }
        if self.total < self.limits.max_size {
            self.total = self.total + 1;
            Checkout::Create
        } else {
            Checkout::Full
        }
    }

    /// A handed-out idle connection failed validation: it leaves the pool
    /// (one connection fewer) and counts as a validation failure and a discard.
    pub fn record_validation_failure(&mut self)
        ensures
            final(self)@ == (PoolCoreView {
                total: sat_sub(old(self)@.total, 1),
                counters: PoolCounters {
                    total_validation_failures: wrap_add(old(self)@.counters.total_validation_failures, 1),
                    total_discards: wrap_add(old(self)@.counters.total_discards, 1),
                    ..old(self)@.counters
                },
                ..old(self)@
            }),
    {
        self.total = self.total.saturating_sub(1);
        self.stats.total_validation_failures = wrapping_inc(self.stats.total_validation_failures, 1);
        self.stats.total_discards = wrapping_inc(self.stats.total_discards, 1);
    }

    /// An idle connection was handed out: one acquisition more.
    pub fn record_reuse(&mut self)
        ensures
            final(self)@ == (PoolCoreView {
                counters: PoolCounters {
                    total_acquisitions: wrap_add(old(self)@.counters.total_acquisitions, 1),
                    ..old(self)@.counters
                },
                ..old(self)@
            }),
    {
        self.stats.total_acquisitions = wrapping_inc(self.stats.total_acquisitions, 1);
    }

    /// A new connection was created into a reserved slot and handed out: one
    /// creation and one acquisition more.
    pub fn record_create(&mut self)
        ensures
            final(self)@ == (PoolCoreView {
                counters: PoolCounters {
                    total_creates: wrap_add(old(self)@.counters.total_creates, 1),
                    total_acquisitions: wrap_add(old(self)@.counters.total_acquisitions, 1),
                    ..old(self)@.counters
                },
                ..old(self)@
            }),
    {
        self.stats.total_creates = wrapping_inc(self.stats.total_creates, 1);
        self.stats.total_acquisitions = wrapping_inc(self.stats.total_acquisitions, 1);
    }

    /// Connecting into a reserved slot failed: the slot is released.
    pub fn release_slot(&mut self)
        ensures
            final(self)@ == (PoolCoreView { total: sat_sub(old(self)@.total, 1), ..old(self)@ }),
    {
        self.total = self.total.saturating_sub(1);
    }

    /// A connection comes back at `now`: into the idle queue (newest last,
    /// creation time kept, last used `now`) while open, or, once closed, out
    /// of the pool (one connection fewer, one discard more) and back to the
    /// caller to disconnect.
    pub fn return_connection(&mut self, conn: C, created_at: u64, now: u64) -> (out: Option<C>)
        ensures
            !old(self)@.closed ==> {
                &&& out is None
                &&& final(self)@ == (PoolCoreView {
                    idle: old(self)@.idle.push(IdleEntry { conn, created_at, last_used: now }),
                    ..old(self)@
                })
            },
            old(self)@.closed ==> {
                &&& out == Some(conn)
                &&& final(self)@ == (PoolCoreView {
                    total: sat_sub(old(self)@.total, 1),
                    counters: PoolCounters {
                        total_discards: wrap_add(old(self)@.counters.total_discards, 1),
                        ..old(self)@.counters
                    },
                    ..old(self)@
                })
            },
    {
        if self.closed {
            self.total = self.total.saturating_sub(1);
            self.stats.total_discards = wrapping_inc(self.stats.total_discards, 1);
            Some(conn)
        } else {
            self.idle.push(IdleEntry { conn, created_at, last_used: now });
            None
        }
    }

    /// A checked-out connection is discarded: one connection fewer, one
    /// discard more.
    pub fn discard_connection(&mut self)
        ensures
            final(self)@ == (PoolCoreView {
                total: sat_sub(old(self)@.total, 1),
                counters: PoolCounters { total_discards: wrap_add(old(self)@.counters.total_discards, 1), ..old(self)@.counters },
                ..old(self)@
            }),
    {
        self.total = self.total.saturating_sub(1);
        self.stats.total_discards = wrapping_inc(self.stats.total_discards, 1);
    }

    /// Close the pool: no more acquisitions; every idle connection leaves
    /// (in order, returned to disconnect), as many connections fewer and
    /// discards more.
    pub fn close(&mut self) -> (drained: Vec<C>)
        ensures
            final(self)@.closed,
            final(self)@.idle == Seq::<IdleEntry<C>>::empty(),
            drained@ == old(self)@.idle.map_values(|e: IdleEntry<C>| e.conn),
            final(self)@.total == sat_sub(old(self)@.total, old(self)@.idle.len()),
            final(self)@.counters == (PoolCounters {
                total_discards: wrap_add(old(self)@.counters.total_discards, old(self)@.idle.len()),
                ..old(self)@.counters
            }),
            final(self)@.limits == old(self)@.limits,
    {
        self.closed = true;
        let mut idle: Vec<IdleEntry<C>> = Vec::new();
        std::mem::swap(&mut idle, &mut self.idle);
        let n = idle.len();
        let drained = take_conns(idle);
        self.total = self.total.saturating_sub(n);
        if n > 0 {
            self.stats.total_discards = wrapping_inc(self.stats.total_discards, n as u64);
        } else {
            assert(wrap_add(self.stats.total_discards, 0) == self.stats.total_discards);
        }
        drained
    }

    /// Evict every idle connection stale at `now`; the others stay in order.
    /// The evicted ones are returned, in order, to disconnect: as many
    /// connections fewer and discards more.
    pub fn evict_stale(&mut self, now: u64) -> (evicted: Vec<C>)
        ensures
            final(self)@.idle == old(self)@.idle.filter(|e: IdleEntry<C>| !is_stale(e, old(self)@.limits, now)),
            evicted@ == old(self)@.idle.filter(|e: IdleEntry<C>| is_stale(e, old(self)@.limits, now)).map_values(
                |e: IdleEntry<C>| e.conn,
            ),
            final(self)@.total == sat_sub(old(self)@.total, evicted@.len()),
            final(self)@.counters == (PoolCounters {
                total_discards: wrap_add(old(self)@.counters.total_discards, evicted@.len()),
                ..old(self)@.counters
            }),
            final(self)@.closed == old(self)@.closed,
            final(self)@.limits == old(self)@.limits,
    {
        broadcast use Seq::lemma_filter_push;

        let limits = self.limits;
        let ghost keep_pred = |e: IdleEntry<C>| !is_stale(e, limits, now);
        let ghost drop_pred = |e: IdleEntry<C>| is_stale(e, limits, now);
        let mut idle: Vec<IdleEntry<C>> = Vec::new();
        std::mem::swap(&mut idle, &mut self.idle);
        let ghost all = idle@;
        assert(all.len() == idle.len());
        let mut keep: Vec<IdleEntry<C>> = Vec::new();
        let mut evicted: Vec<C> = Vec::new();
        let mut k: usize = 0;
        while idle.len() > 0
            invariant
                k + idle@.len() == all.len(),
                all.len() <= usize::MAX,
                idle@ == all.skip(k as int),
                keep@ == all.take(k as int).filter(keep_pred),
                evicted@ == all.take(k as int).filter(drop_pred).map_values(|e: IdleEntry<C>| e.conn),
                keep_pred == (|e: IdleEntry<C>| !is_stale(e, limits, now)),
                drop_pred == (|e: IdleEntry<C>| is_stale(e, limits, now)),
            decreases idle@.len(),
        {
            let ghost before = idle@;
            let e = idle.remove(0);
            proof {
                assert(e == all[k as int]) by {
                    assert(before[0] == all.skip(k as int)[0]);
                }
                assert(idle@ =~= all.skip(k + 1));
                assert(all.take(k + 1) =~= all.take(k as int).push(e));
                all.take(k as int).lemma_filter_push(e, keep_pred);
                all.take(k as int).lemma_filter_push(e, drop_pred);
            }
            let age = now.saturating_sub(e.created_at);
            let idle_for = now.saturating_sub(e.last_used);
            if age > limits.max_lifetime_ms || idle_for > limits.idle_timeout_ms {
                let ghost ev = evicted@;
                evicted.push(e.conn);
                proof {
                    assert(drop_pred(e));
                    assert(evicted@ =~= all.take(k + 1).filter(drop_pred).map_values(|x: IdleEntry<C>| x.conn));
                }
            } else {
                proof {
                    assert(keep_pred(e));
                }
                keep.push(e);
            }
            k = k + 1;
        }
        proof {
            assert(all.take(all.len() as int) =~= all);
        }
        let n = evicted.len();
        self.idle = keep;
        self.total = self.total.saturating_sub(n);
        if n > 0 {
            self.stats.total_discards = wrapping_inc(self.stats.total_discards, n as u64);
        } else {
            assert(wrap_add(self.stats.total_discards, 0) == self.stats.total_discards);
        }
        evicted
    }

    /// Reserve a slot to pre-create a connection: only while open and under
    /// capacity.
    pub fn reserve_warm_slot(&mut self) -> (ok: bool)
        ensures
            ok == (!old(self)@.closed && old(self)@.total < old(self)@.limits.max_size),
            ok ==> final(self)@ == (PoolCoreView { total: (old(self)@.total + 1) as usize, ..old(self)@ }),
            !ok ==> final(self)@ == old(self)@,
    {
        if self.total >= self.limits.max_size || self.closed {
            return false;
        }
        self.total = self.total + 1;
        true
    }

    /// A pre-created connection was made: one creation more.
    pub fn record_warm_create(&mut self)
        ensures
            final(self)@ == (PoolCoreView {
                counters: PoolCounters { total_creates: wrap_add(old(self)@.counters.total_creates, 1), ..old(self)@.counters },
                ..old(self)@
            }),
    {
        self.stats.total_creates = wrapping_inc(self.stats.total_creates, 1);
    }

    /// Hand out a validated or newly created connection: while open, one
    /// acquisition more; once closed (it closed meanwhile), the connection
    /// leaves the pool (one connection fewer, one discard more) and is to be
    /// disconnected.
    pub fn finish_checkout(&mut self) -> (handed: bool)
        ensures
            handed == !old(self)@.closed,
            handed ==> final(self)@ == (PoolCoreView {
                counters: PoolCounters {
                    total_acquisitions: wrap_add(old(self)@.counters.total_acquisitions, 1),
                    ..old(self)@.counters
                },
                ..old(self)@
            }),
            !handed ==> final(self)@ == (PoolCoreView {
                total: sat_sub(old(self)@.total, 1),
                counters: PoolCounters {
                    total_discards: wrap_add(old(self)@.counters.total_discards, 1),
                    ..old(self)@.counters
                },
                ..old(self)@
            }),
    {
        if self.closed {
            self.total = self.total.saturating_sub(1);
            self.stats.total_discards = wrapping_inc(self.stats.total_discards, 1);
            false
        } else {
            self.stats.total_acquisitions = wrapping_inc(self.stats.total_acquisitions, 1);
            true
        }
    }

    /// An acquisition timed out: one timeout more.
    pub fn record_timeout(&mut self)
        ensures
            final(self)@ == (PoolCoreView {
                counters: PoolCounters { total_timeouts: wrap_add(old(self)@.counters.total_timeouts, 1), ..old(self)@.counters },
                ..old(self)@
            }),
    {
        self.stats.total_timeouts = wrapping_inc(self.stats.total_timeouts, 1);
    }
}

fn take_conns<C>(entries: Vec<IdleEntry<C>>) -> (conns: Vec<C>)
    ensures
        conns@ == entries@.map_values(|e: IdleEntry<C>| e.conn),
{
    let ghost all = entries@;
    let mut entries = entries;
    assert(all.len() == entries.len());
    let mut conns: Vec<C> = Vec::new();
    let mut k: usize = 0;
    while entries.len() > 0
        invariant
            k + entries@.len() == all.len(),
            all.len() <= usize::MAX,
            entries@ == all.skip(k as int),
            conns@ == all.take(k as int).map_values(|e: IdleEntry<C>| e.conn),
        decreases entries@.len(),
    {
        let ghost before = entries@;
        let e = entries.remove(0);
        proof {
            assert(e == all[k as int]) by {
                assert(before[0] == all.skip(k as int)[0]);
            }
            assert(entries@ =~= all.skip(k + 1));
        }
        conns.push(e.conn);
        proof {
            assert(conns@ =~= all.take(k + 1).map_values(|x: IdleEntry<C>| x.conn));
        }
        k = k + 1;
    }
    assert(all.take(all.len() as int) =~= all);
    conns
}

/// Reserving a slot and then releasing it (a failed connect) gives the
/// capacity back: the total afterwards is the total before.
pub proof fn law_reserve_then_release(total: usize, max_size: usize)
    requires
        total < max_size,
    ensures
        sat_sub((total + 1) as usize, 1) == total,
{
}

/// Returning a connection puts it at the back of the idle queue: the oldest
/// idle connection is still the next one taken, and the returned one comes
/// after all the others.
pub proof fn law_return_is_fifo<C>(idle: Seq<IdleEntry<C>>, e: IdleEntry<C>)
    requires
        idle.len() > 0,
    ensures
        idle.push(e).drop_first() == idle.drop_first().push(e),
        idle.push(e)[0] == idle[0],
{
    assert(idle.push(e).drop_first() =~= idle.drop_first().push(e));
}


// ---------------------------------------------------------------------------
// The pool over a connection manager
// ---------------------------------------------------------------------------
/// Manages the lifecycle of database connections: implement it for each
/// database backend to create, validate and clean up connections.
pub trait ConnectionManager {
    /// The connection type managed by this manager.
    type Connection;
    /// Error type for connection operations.
    type Error;

    /// Create a new connection.
    fn connect(&self) -> Result<Self::Connection, Self::Error>;

    /// Whether a connection is still usable; called before an idle
    /// connection is handed out when `validate_on_checkout` is enabled.
    fn is_valid(&self, conn: &Self::Connection) -> bool;

    /// Called when a connection leaves the pool for good; does nothing
    /// unless overridden.
    fn disconnect(&self, conn: Self::Connection) {
    }
}

/// `conn` is a connection that `manager.connect()` may return.
pub open spec fn connected_by<M: ConnectionManager>(manager: &M, conn: M::Connection) -> bool {
    call_ensures(M::connect, (manager,), Ok(conn))
}

/// The limits a pool built from `config` enforces.
pub open spec fn limits_of(config: DbPoolConfig) -> PoolLimits {
    PoolLimits {
        max_size: config.max_size,
        max_lifetime_ms: clamp_millis(duration_millis(config.max_lifetime)),
        idle_timeout_ms: clamp_millis(duration_millis(config.idle_timeout)),
    }
}

/// The number of entries of `s` that are not stale at `now`.
pub open spec fn count_fresh<C>(s: Seq<IdleEntry<C>>, limits: PoolLimits, now: u64) -> nat
    decreases s.len(),
{
    if s.len() == 0 {
        0
    } else {
        count_fresh(s.drop_last(), limits, now) + if is_stale(s.last(), limits, now) {
            0nat
        } else {
            1nat
        }
    }
}

/// What acquiring a connection at `now` leaves behind, from the open pool
/// `o` to `f`, when it hands out `out` (the connection and its creation
/// time) or nothing. It takes idle connections from the front: each one taken
/// and not handed out was stale, or (with validation on) failed validation,
/// and is discarded. When the last taken one is handed out it is not stale
/// and keeps its creation time; otherwise every idle connection was taken, and
/// a new connection is made at `now` into a free slot when there is one.
pub open spec fn checkout_post<C>(
    o: PoolCoreView<C>,
    f: PoolCoreView<C>,
    now: u64,
    validate: bool,
    out: Option<(C, u64)>,
) -> bool {
    let taken = o.idle.len() - f.idle.len();
    let reused = out is Some && f.counters.total_creates == o.counters.total_creates;
    let dropped = if reused {
        taken - 1
    } else {
        taken
    };
    let rejected = count_fresh(o.idle.take(dropped), o.limits, now);
    &&& f.closed == o.closed
    &&& f.limits == o.limits
    &&& 0 <= taken <= o.idle.len()
    &&& f.idle == o.idle.skip(taken)
    &&& f.counters.total_timeouts == o.counters.total_timeouts
    &&& f.counters.total_discards == wrap_add(o.counters.total_discards, dropped as nat)
    &&& f.counters.total_validation_failures == wrap_add(
        o.counters.total_validation_failures,
        rejected,
    )
    &&& !validate ==> rejected == 0
    &&& f.counters.total_acquisitions == if out is Some {
        wrap_add(o.counters.total_acquisitions, 1)
    } else {
        o.counters.total_acquisitions
    }
    &&& if reused {
        &&& taken >= 1
        &&& out == Some((o.idle[taken - 1].conn, o.idle[taken - 1].created_at))
        &&& !is_stale(o.idle[taken - 1], o.limits, now)
        &&& f.total == sat_sub(o.total, dropped as nat)
    } else {
        &&& taken == o.idle.len()
        &&& if out is Some {
            &&& out.unwrap().1 == now
            &&& f.counters.total_creates == wrap_add(o.counters.total_creates, 1)
            &&& sat_sub(o.total, dropped as nat) < o.limits.max_size
            &&& f.total == sat_sub(o.total, dropped as nat) + 1
        } else {
            &&& f.counters.total_creates == o.counters.total_creates
            &&& f.total == sat_sub(o.total, dropped as nat)
        }
    }
}

proof fn lemma_wrap_add_succ(n: u64, k: nat)
    ensures
        wrap_add(wrap_add(n, k), 1) == wrap_add(n, k + 1),
{
    let m: int = 0x1_0000_0000_0000_0000int;
    vstd::arithmetic::div_mod::lemma_add_mod_noop(n + k, 1, m);
    assert(1int % m == 1);
    assert(((n + k) % m) + 1 < m + 1);
}

proof fn lemma_count_fresh_step<C>(s: Seq<IdleEntry<C>>, k: int, limits: PoolLimits, now: u64)
    requires
        0 <= k < s.len(),
    ensures
        count_fresh(s.take(k + 1), limits, now) == count_fresh(s.take(k), limits, now) + if is_stale(
            s[k],
            limits,
            now,
        ) {
            0nat
        } else {
            1nat
        },
{
    assert(s.take(k + 1).drop_last() =~= s.take(k));
}

/// A connection handed out by a pool, with its creation time.
#[derive(Debug)]
pub struct PooledConnection<C> {
    conn: C,
    created_at: u64,
}

impl<C> PooledConnection<C> {
    /// The connection.
    pub closed spec fn conn_spec(&self) -> C {
        self.conn
    }

    /// When the connection was created.
    pub closed spec fn created_at_spec(&self) -> u64 {
        self.created_at
    }

    /// Access the underlying connection.
    pub fn get(&self) -> (c: &C)
        ensures
            *c == self.conn_spec(),
    {
        &self.conn
    }

    /// Access the underlying connection mutably.
    pub fn get_mut(&mut self) -> (c: &mut C)
        ensures
            *c == old(self).conn_spec(),
            final(self).conn_spec() == *final(c),
            final(self).created_at_spec() == old(self).created_at_spec(),
    {
        &mut self.conn
    }

    /// When the connection was created.
    pub fn created_at(&self) -> (t: u64)
        ensures
            t == self.created_at_spec(),
    {
        self.created_at
    }

    /// Return the connection to `pool` at `now`: it joins the idle queue
    /// while the pool is open, and is disconnected once the pool is closed.
    pub fn return_to_pool<M: ConnectionManager<Connection = C>>(self, pool: &mut DbPool<M>, now: u64)
        ensures
            final(pool).config_spec() == old(pool).config_spec(),
            !old(pool)@.closed ==> final(pool)@ == (PoolCoreView {
                idle: old(pool)@.idle.push(
                    IdleEntry { conn: self.conn_spec(), created_at: self.created_at_spec(), last_used: now },
                ),
                ..old(pool)@
            }),
            old(pool)@.closed ==> final(pool)@ == (PoolCoreView {
                total: sat_sub(old(pool)@.total, 1),
                counters: PoolCounters {
                    total_discards: wrap_add(old(pool)@.counters.total_discards, 1),
                    ..old(pool)@.counters
                },
                ..old(pool)@
            }),
    {
        let back = pool.core.return_connection(self.conn, self.created_at, now);
        match back {
            Some(c) => pool.manager.disconnect(c),
            None => {},
        }
    }

    /// Discard the connection instead of returning it: it leaves `pool` and
    /// is disconnected.
    pub fn discard<M: ConnectionManager<Connection = C>>(self, pool: &mut DbPool<M>)
        ensures
            final(pool).config_spec() == old(pool).config_spec(),
            final(pool)@ == (PoolCoreView {
                total: sat_sub(old(pool)@.total, 1),
                counters: PoolCounters {
                    total_discards: wrap_add(old(pool)@.counters.total_discards, 1),
                    ..old(pool)@.counters
                },
                ..old(pool)@
            }),
    {
        pool.core.discard_connection();
        pool.manager.disconnect(self.conn);
    }
}

/// A database connection pool with health checks over a connection manager.
/// Connections are created on demand up to the maximum size, validated on
/// checkout when configured, and evicted when stale. Times are milliseconds
/// on the caller's monotonic clock.
#[derive(Debug)]
pub struct DbPool<M: ConnectionManager> {
    manager: M,
    config: DbPoolConfig,
    core: PoolCore<M::Connection>,
}

impl<M: ConnectionManager> View for DbPool<M> {
    type V = PoolCoreView<M::Connection>;

    closed spec fn view(&self) -> PoolCoreView<M::Connection> {
        self.core@
    }
}

fn disconnect_all<M: ConnectionManager>(manager: &M, conns: Vec<M::Connection>) {
    let mut conns = conns;
    while conns.len() > 0
        decreases conns@.len(),
    {
        let c = conns.remove(0);
        manager.disconnect(c);
    }
}

impl<M: ConnectionManager> DbPool<M> {
    /// The pool's configuration.
    pub closed spec fn config_spec(&self) -> DbPoolConfig {
        self.config
    }

    /// The pool's connection manager.
    pub closed spec fn manager_spec(&self) -> M {
        self.manager
    }

    /// A new, open and empty pool with the given manager and configuration.
    pub fn new(manager: M, config: DbPoolConfig) -> (p: Self)
        ensures
            p.manager_spec() == manager,
            p.config_spec() == config,
            p@.idle == Seq::<IdleEntry<M::Connection>>::empty(),
            p@.total == 0,
            !p@.closed,
            p@.counters == (PoolCounters {
                total_acquisitions: 0,
                total_creates: 0,
                total_discards: 0,
                total_timeouts: 0,
                total_validation_failures: 0,
            }),
            p@.limits == limits_of(config),
    {
        let limits = PoolLimits {
            max_size: config.max_size,
            max_lifetime_ms: millis_u64(&config.max_lifetime),
            idle_timeout_ms: millis_u64(&config.idle_timeout),
        };
        DbPool { manager, config, core: PoolCore::new(limits) }
    }

    /// A new pool with the default configuration.
    pub fn with_manager(manager: M) -> (p: Self)
        ensures
            p.manager_spec() == manager,
            defaults_but_size(p.config_spec()),
            p.config_spec().max_size == 10,
            p@.idle == Seq::<IdleEntry<M::Connection>>::empty(),
            p@.total == 0,
            !p@.closed,
            p@.limits == limits_of(p.config_spec()),
    {
        DbPool::new(manager, DbPoolConfig::default())
    }

    /// The pool configuration.
    pub fn config(&self) -> (c: &DbPoolConfig)
        ensures
            *c == self.config_spec(),
    {
        &self.config
    }

    /// The connection manager.
    pub fn manager(&self) -> (m: &M)
        ensures
            *m == self.manager_spec(),
    {
        &self.manager
    }

    /// Current pool statistics.
    pub fn stats(&self) -> (s: DbPoolStats)
        ensures
            s.idle == self@.idle.len(),
            s.active == sat_sub(self@.total, self@.idle.len()),
            s.total == self@.total,
            s.max_size == self@.limits.max_size,
            s.total_acquisitions == self@.counters.total_acquisitions,
            s.total_creates == self@.counters.total_creates,
            s.total_discards == self@.counters.total_discards,
            s.total_timeouts == self@.counters.total_timeouts,
            s.total_validation_failures == self@.counters.total_validation_failures,
    {
        self.core.stats()
    }

    /// Acquire a connection at `now`: fail when closed; else take idle
    /// connections oldest first, disconnecting each stale one and (with
    /// validation on) each that fails validation, until one can be handed
    /// out; else create a new one when under capacity (failing with the
    /// manager's error, capacity kept, when that fails); else fail as full.
    pub fn get(&mut self, now: u64) -> (r: Result<PooledConnection<M::Connection>, DbPoolError<M::Error>>)
        ensures
            final(self).config_spec() == old(self).config_spec(),
            old(self)@.closed <==> r matches Err(DbPoolError::Closed),
            old(self)@.closed ==> final(self)@ == old(self)@,
            !old(self)@.closed ==> checkout_post(
                old(self)@,
                final(self)@,
                now,
                old(self).config_spec().validate_on_checkout,
                match r {
                    Ok(pc) => Some((pc.conn_spec(), pc.created_at_spec())),
                    Err(_) => None,
                },
            ),
            r matches Err(DbPoolError::Full) ==> final(self)@.idle.len() == 0 && final(self)@.total
                >= final(self)@.limits.max_size,
            r matches Err(DbPoolError::Connect(_)) ==> final(self)@.idle.len() == 0 && final(self)@.total
                < final(self)@.limits.max_size,
            r matches Ok(pc) ==> (final(self)@.counters.total_creates != old(self)@.counters.total_creates
                ==> connected_by(&old(self).manager_spec(), pc.conn_spec())),
            r matches Err(DbPoolError::Connect(e)) ==> call_ensures(M::connect, (&old(self).manager_spec(),), Err(e)),
            final(self).manager_spec() == old(self).manager_spec(),
            !(r matches Err(DbPoolError::Timeout)),
            !(r matches Err(DbPoolError::ValidationFailed)),
    {
        let ghost o = self.core@;
        let validate = self.config.validate_on_checkout;
        if self.core.is_closed() {
            return Err(DbPoolError::Closed);
        }
        let ghost mut k: int = 0;
        loop
            invariant
                self.config == old(self).config,
                self.manager == old(self).manager,
                validate == self.config.validate_on_checkout,
                o == old(self)@,
                !o.closed,
                0 <= k <= o.idle.len(),
                self.core@.idle == o.idle.skip(k),
                self.core@.closed == o.closed,
                self.core@.limits == o.limits,
                self.core@.total == sat_sub(o.total, k as nat),
                self.core@.counters == (PoolCounters {
                    total_discards: wrap_add(o.counters.total_discards, k as nat),
                    total_validation_failures: wrap_add(
                        o.counters.total_validation_failures,
                        count_fresh(o.idle.take(k), o.limits, now),
                    ),
                    ..o.counters
                }),
                !validate ==> count_fresh(o.idle.take(k), o.limits, now) == 0,
            decreases o.idle.len() - k,
        {
            proof {
                if k < o.idle.len() {
                    assert(self.core@.idle[0] == o.idle[k]);
                    lemma_count_fresh_step(o.idle, k, o.limits, now);
                }
                lemma_wrap_add_succ(o.counters.total_discards, k as nat);
                lemma_wrap_add_succ(
                    o.counters.total_validation_failures,
                    count_fresh(o.idle.take(k), o.limits, now),
                );
            }
            let step = self.core.begin_checkout(now);
            match step {
                Checkout::Closed => {
                    return Err(DbPoolError::Closed);
                },
                Checkout::Full => {
                    assert(o.idle.skip(k).len() == 0);
                    assert(o.idle.take(k) =~= o.idle);
                    return Err(DbPoolError::Full);
                },
                Checkout::Discard { conn } => {
                    self.manager.disconnect(conn);
                    proof {
                        assert(o.idle.skip(k).drop_first() =~= o.idle.skip(k + 1));
                        k = k + 1;
                    }
                },
                Checkout::Reuse { conn, created_at } => {
                    if validate && !self.manager.is_valid(&conn) {
                        self.core.record_validation_failure();
                        self.manager.disconnect(conn);
                        proof {
                            assert(o.idle.skip(k).drop_first() =~= o.idle.skip(k + 1));
                            k = k + 1;
                        }
                    } else {
                        self.core.record_reuse();
                        proof {
                            assert(o.idle.skip(k).drop_first() =~= o.idle.skip(k + 1));
                        }
                        return Ok(PooledConnection { conn, created_at });
                    }
                },
                Checkout::Create => {
                    assert(o.idle.skip(k).len() == 0);
                    assert(o.idle.take(k) =~= o.idle);
                    let res = self.manager.connect();
                    assert(call_ensures(M::connect, (&self.manager,), res));
                    match res {
                        Ok(conn) => {
                            assert(connected_by(&self.manager, conn));
                            self.core.record_create();
                            return Ok(PooledConnection { conn, created_at: now });
                        },
                        Err(e) => {
                            self.core.release_slot();
                            return Err(DbPoolError::Connect(e));
                        },
                    }
                },
            }
        }
    }

    /// An acquisition with retries ran out of time: one timeout more.
    pub fn record_timeout(&mut self)
        ensures
            final(self).config_spec() == old(self).config_spec(),
            final(self).manager_spec() == old(self).manager_spec(),
            final(self)@ == (PoolCoreView {
                counters: PoolCounters {
                    total_timeouts: wrap_add(old(self)@.counters.total_timeouts, 1),
                    ..old(self)@.counters
                },
                ..old(self)@
            }),
    {
        self.core.record_timeout();
    }

    /// Acquire a connection at `now`, or nothing where acquiring fails.
    pub fn try_get(&mut self, now: u64) -> (r: Option<PooledConnection<M::Connection>>)
        ensures
            final(self).config_spec() == old(self).config_spec(),
            old(self)@.closed ==> r is None && final(self)@ == old(self)@,
            !old(self)@.closed ==> checkout_post(
                old(self)@,
                final(self)@,
                now,
                old(self).config_spec().validate_on_checkout,
                match r {
                    Some(pc) => Some((pc.conn_spec(), pc.created_at_spec())),
                    None => None,
                },
            ),
    {
        match self.get(now) {
            Ok(pc) => Some(pc),
            Err(_) => None,
        }
    }

    /// Close the pool: no more acquisitions; the idle connections are
    /// disconnected.
    pub fn close(&mut self)
        ensures
            final(self).config_spec() == old(self).config_spec(),
            final(self)@.closed,
            final(self)@.idle == Seq::<IdleEntry<M::Connection>>::empty(),
            final(self)@.total == sat_sub(old(self)@.total, old(self)@.idle.len()),
            final(self)@.counters == (PoolCounters {
                total_discards: wrap_add(old(self)@.counters.total_discards, old(self)@.idle.len()),
                ..old(self)@.counters
            }),
            final(self)@.limits == old(self)@.limits,
    {
        let drained = self.core.close();
        disconnect_all(&self.manager, drained);
    }

    /// Whether the pool is closed.
    pub fn is_closed(&self) -> (b: bool)
        ensures
            b == self@.closed,
    {
        self.core.is_closed()
    }

    /// Evict every idle connection stale at `now` (the others stay in order)
    /// and disconnect it; returns how many were evicted.
    pub fn evict_stale(&mut self, now: u64) -> (n: usize)
        ensures
            final(self).config_spec() == old(self).config_spec(),
            n == old(self)@.idle.filter(|e: IdleEntry<M::Connection>| is_stale(e, old(self)@.limits, now)).len(),
            final(self)@.idle == old(self)@.idle.filter(
                |e: IdleEntry<M::Connection>| !is_stale(e, old(self)@.limits, now),
            ),
            final(self)@.total == sat_sub(old(self)@.total, n as nat),
            final(self)@.counters == (PoolCounters {
                total_discards: wrap_add(old(self)@.counters.total_discards, n as nat),
                ..old(self)@.counters
            }),
            final(self)@.closed == old(self)@.closed,
            final(self)@.limits == old(self)@.limits,
    {
        let evicted = self.core.evict_stale(now);
        let n = evicted.len();
        disconnect_all(&self.manager, evicted);
        n
    }

    /// Pre-create connections at `now`, up to the configured minimum idle
    /// count, while the pool is open and under capacity; a connection that
    /// fails to connect gives its slot back. Returns how many were created;
    /// they join the idle queue.
    pub fn warm_up(&mut self, now: u64) -> (created: usize)
        ensures
            final(self).config_spec() == old(self).config_spec(),
            created <= old(self).config_spec().min_idle,
            old(self)@.closed ==> created == 0,
            old(self)@.total >= old(self)@.limits.max_size ==> created == 0,
            created == 0 ==> final(self)@ == old(self)@,
            final(self)@.idle.len() == old(self)@.idle.len() + created,
            final(self)@.idle.take(old(self)@.idle.len() as int) == old(self)@.idle,
            forall|i: int|
                old(self)@.idle.len() <= i < final(self)@.idle.len() ==> (#[trigger] final(self)@.idle[i]).created_at
                    == now && final(self)@.idle[i].last_used == now,
            forall|i: int|
                old(self)@.idle.len() <= i < final(self)@.idle.len() ==> connected_by(
                    &old(self).manager_spec(),
                    (#[trigger] final(self)@.idle[i]).conn,
                ),
            final(self).manager_spec() == old(self).manager_spec(),
            final(self)@.total == old(self)@.total + created,
            final(self)@.total <= old(self)@.total || final(self)@.total <= old(self)@.limits.max_size,
            final(self)@.counters == (PoolCounters {
                total_creates: wrap_add(old(self)@.counters.total_creates, created as nat),
                ..old(self)@.counters
            }),
            final(self)@.closed == old(self)@.closed,
            final(self)@.limits == old(self)@.limits,
    {
        let ghost o = self.core@;
        let mut created: usize = 0;
        let mut i: usize = 0;
        let min_idle = self.config.min_idle;
        assert(wrap_add(o.counters.total_creates, 0) == o.counters.total_creates) by {
            vstd::arithmetic::div_mod::lemma_small_mod(
                o.counters.total_creates as nat,
                0x1_0000_0000_0000_0000nat,
            );
        }
        assert(o.idle.take(o.idle.len() as int) =~= o.idle);
        while i < min_idle
            invariant
                self.config == old(self).config,
                o == old(self)@,
                min_idle == self.config.min_idle,
                created <= i <= min_idle,
                o.closed ==> created == 0,
                o.total >= o.limits.max_size ==> created == 0,
                created == 0 ==> self.core@ == o,
                self.core@.idle.len() == o.idle.len() + created,
                self.core@.idle.take(o.idle.len() as int) == o.idle,
                forall|j: int|
                    o.idle.len() <= j < self.core@.idle.len() ==> (#[trigger] self.core@.idle[j]).created_at
                        == now && self.core@.idle[j].last_used == now,
                self.manager == old(self).manager,
                forall|j: int|
                    o.idle.len() <= j < self.core@.idle.len() ==> connected_by(
                        &self.manager,
                        (#[trigger] self.core@.idle[j]).conn,
                    ),
                self.core@.total == o.total + created,
                self.core@.total <= o.total || self.core@.total <= o.limits.max_size,
                self.core@.counters == (PoolCounters {
                    total_creates: wrap_add(o.counters.total_creates, created as nat),
                    ..o.counters
                }),
                self.core@.closed == o.closed,
                self.core@.limits == o.limits,
            decreases min_idle - i,
        {
            if !self.core.reserve_warm_slot() {
                break;
            }
            let res = self.manager.connect();
            assert(call_ensures(M::connect, (&self.manager,), res));
            match res {
                Ok(conn) => {
                    assert(connected_by(&self.manager, conn));
                    proof {
                        lemma_wrap_add_succ(o.counters.total_creates, created as nat);
                    }
                    self.core.record_warm_create();
                    let ghost before = self.core@.idle;
                    let back = self.core.return_connection(conn, now, now);
                    match back {
                        Some(c) => self.manager.disconnect(c),
                        None => {},
                    }
                    proof {
                        assert(self.core@.idle.take(o.idle.len() as int) =~= before.take(o.idle.len() as int));
                    }
                    created = created + 1;
                },
                Err(_) => {
                    self.core.release_slot();
                },
            }
            i = i + 1;
        }
        created
    }
}


// ---------------------------------------------------------------------------
// Asynchronous checkout, one decision at a time
// ---------------------------------------------------------------------------
/// How an asynchronous connect ended.
#[derive(Debug)]
pub enum ConnectOutcome<C, E> {
    /// A new connection.
    Connected(C),
    /// The manager's error.
    Failed(E),
    /// The connect was cancelled.
    Cancelled,
    /// The connect panicked.
    Panicked,
}

/// What happened since the last step of an asynchronous checkout.
#[derive(Debug)]
pub enum AsyncCheckoutEvent<C, E> {
    /// The checkout (re)starts at `now`; `cancelled` is whether cancellation
    /// is requested.
    Poll { cancelled: bool, now: u64 },
    /// Validation of the idle connection `conn` (created at `created_at`)
    /// ended with `valid`; `cancelled` is whether cancellation was requested
    /// meanwhile.
    Validated { conn: C, created_at: u64, valid: bool, cancelled: bool },
    /// Connecting into the reserved slot ended with `outcome` at `now`;
    /// `cancelled` is whether cancellation was requested meanwhile.
    Connected { outcome: ConnectOutcome<C, E>, cancelled: bool, now: u64 },
}

/// What an asynchronous checkout does next.
#[derive(Debug)]
pub enum AsyncCheckoutAction<C, E> {
    /// Disconnect `conn`, then poll again.
    DisconnectAndRetry { conn: C },
    /// Validate `conn`, then report `Validated`.
    Validate { conn: C, created_at: u64 },
    /// Connect a new connection into the reserved slot, then report
    /// `Connected`.
    Connect,
    /// Hand out `conn`, created at `created_at`.
    HandOut { conn: C, created_at: u64 },
    /// Disconnect `conn` and fail with `error`.
    DisconnectAndFail { conn: C, error: DbPoolError<E> },
    /// Fail with `error`.
    Fail { error: DbPoolError<E> },
}

/// `o` with one connection fewer and one discard more.
pub open spec fn dropped_one<C>(o: PoolCoreView<C>) -> PoolCoreView<C> {
    PoolCoreView {
        total: sat_sub(o.total, 1),
        counters: PoolCounters { total_discards: wrap_add(o.counters.total_discards, 1), ..o.counters },
        ..o
    }
}

/// `o` with one acquisition more.
pub open spec fn acquired_one<C>(o: PoolCoreView<C>) -> PoolCoreView<C> {
    PoolCoreView {
        counters: PoolCounters { total_acquisitions: wrap_add(o.counters.total_acquisitions, 1), ..o.counters },
        ..o
    }
}

/// `o` with one creation more.
pub open spec fn created_one<C>(o: PoolCoreView<C>) -> PoolCoreView<C> {
    PoolCoreView {
        counters: PoolCounters { total_creates: wrap_add(o.counters.total_creates, 1), ..o.counters },
        ..o
    }
}

/// Handing out `conn` from `o`: once the pool is closed it is dropped
/// (disconnected, one connection fewer) and the checkout fails as closed;
/// otherwise it is handed out and counted as an acquisition.
pub open spec fn finish_post<C, E>(
    o: PoolCoreView<C>,
    f: PoolCoreView<C>,
    conn: C,
    created_at: u64,
    a: AsyncCheckoutAction<C, E>,
) -> bool {
    if o.closed {
        f == dropped_one(o) && a == (AsyncCheckoutAction::<C, E>::DisconnectAndFail {
            conn,
            error: DbPoolError::Closed,
        })
    } else {
        f == acquired_one(o) && a == (AsyncCheckoutAction::<C, E>::HandOut { conn, created_at })
    }
}

/// One step of an asynchronous checkout from the pool state `o` to `f`.
/// Cancellation before a slot or connection is held fails with a timeout and
/// changes nothing; cancellation while a connection is being validated or
/// connected drops it (its slot is released) and fails with a timeout. A
/// failed connect releases its slot: the manager's error becomes `Connect`, a
/// cancelled or panicked connect a timeout. A connection that is ready when
/// the pool has closed is dropped and the checkout fails as closed; otherwise
/// it is handed out and counted.
pub open spec fn async_step_post<C, E>(
    o: PoolCoreView<C>,
    f: PoolCoreView<C>,
    validate: bool,
    ev: AsyncCheckoutEvent<C, E>,
    a: AsyncCheckoutAction<C, E>,
) -> bool {
    match ev {
        AsyncCheckoutEvent::Poll { cancelled, now } => if cancelled {
            f == o && a == (AsyncCheckoutAction::<C, E>::Fail { error: DbPoolError::Timeout })
        } else if o.closed {
            f == o && a == (AsyncCheckoutAction::<C, E>::Fail { error: DbPoolError::Closed })
        } else if o.idle.len() > 0 {
            let e = o.idle[0];
            let taken = PoolCoreView { idle: o.idle.drop_first(), ..o };
            if is_stale(e, o.limits, now) {
                f == dropped_one(taken) && a == (AsyncCheckoutAction::<C, E>::DisconnectAndRetry { conn: e.conn })
            } else if validate {
                f == taken && a == (AsyncCheckoutAction::<C, E>::Validate { conn: e.conn, created_at: e.created_at })
            } else {
                finish_post(taken, f, e.conn, e.created_at, a)
            }
        } else if o.total < o.limits.max_size {
            f == (PoolCoreView { total: (o.total + 1) as usize, ..o }) && a == AsyncCheckoutAction::<C, E>::Connect
        } else {
            f == o && a == (AsyncCheckoutAction::<C, E>::Fail { error: DbPoolError::Full })
        },
        AsyncCheckoutEvent::Validated { conn, created_at, valid, cancelled } => if cancelled {
            f == dropped_one(o) && a == (AsyncCheckoutAction::<C, E>::DisconnectAndFail {
                conn,
                error: DbPoolError::Timeout,
            })
        } else if !valid {
            f == dropped_one(
                PoolCoreView {
                    counters: PoolCounters {
                        total_validation_failures: wrap_add(o.counters.total_validation_failures, 1),
                        ..o.counters
                    },
                    ..o
                },
            ) && a == (AsyncCheckoutAction::<C, E>::DisconnectAndRetry { conn })
        } else {
            finish_post(o, f, conn, created_at, a)
        },
        AsyncCheckoutEvent::Connected { outcome, cancelled, now } => match outcome {
            ConnectOutcome::Connected(conn) => if cancelled {
                f == dropped_one(o) && a == (AsyncCheckoutAction::<C, E>::DisconnectAndFail {
                    conn,
                    error: DbPoolError::Timeout,
                })
            } else {
                finish_post(created_one(o), f, conn, now, a)
            },
            ConnectOutcome::Failed(e) => f == (PoolCoreView { total: sat_sub(o.total, 1), ..o }) && a == (
            AsyncCheckoutAction::<C, E>::Fail { error: DbPoolError::Connect(e) }),
            ConnectOutcome::Cancelled => f == (PoolCoreView { total: sat_sub(o.total, 1), ..o }) && a == (
            AsyncCheckoutAction::<C, E>::Fail { error: DbPoolError::Timeout }),
            ConnectOutcome::Panicked => f == (PoolCoreView { total: sat_sub(o.total, 1), ..o }) && a == (
            AsyncCheckoutAction::<C, E>::Fail { error: DbPoolError::Timeout }),
        },
    }
}

fn finish_step<C, E>(core: &mut PoolCore<C>, conn: C, created_at: u64) -> (a: AsyncCheckoutAction<C, E>)
    ensures
        finish_post(old(core)@, final(core)@, conn, created_at, a),
{
    if core.finish_checkout() {
        AsyncCheckoutAction::HandOut { conn, created_at }
    } else {
        AsyncCheckoutAction::DisconnectAndFail { conn, error: DbPoolError::Closed }
    }
}

/// The next step of an asynchronous checkout after the event `ev`, with
/// validation on checkout when `validate`.
pub fn async_checkout_step<C, E>(core: &mut PoolCore<C>, validate: bool, ev: AsyncCheckoutEvent<C, E>) -> (a:
    AsyncCheckoutAction<C, E>)
    ensures
        async_step_post(old(core)@, final(core)@, validate, ev, a),
{
    match ev {
        AsyncCheckoutEvent::Poll { cancelled, now } => {
            if cancelled {
                return AsyncCheckoutAction::Fail { error: DbPoolError::Timeout };
            }
            match core.begin_checkout(now) {
                Checkout::Closed => AsyncCheckoutAction::Fail { error: DbPoolError::Closed },
                Checkout::Full => AsyncCheckoutAction::Fail { error: DbPoolError::Full },
                Checkout::Create => AsyncCheckoutAction::Connect,
                Checkout::Discard { conn } => AsyncCheckoutAction::DisconnectAndRetry { conn },
                Checkout::Reuse { conn, created_at } => {
                    if validate {
                        AsyncCheckoutAction::Validate { conn, created_at }
                    } else {
                        finish_step(core, conn, created_at)
                    }
                },
            }
        },
        AsyncCheckoutEvent::Validated { conn, created_at, valid, cancelled } => {
            if cancelled {
                core.discard_connection();
                AsyncCheckoutAction::DisconnectAndFail { conn, error: DbPoolError::Timeout }
            } else if !valid {
                core.record_validation_failure();
                AsyncCheckoutAction::DisconnectAndRetry { conn }
            } else {
                finish_step(core, conn, created_at)
            }
        },
        AsyncCheckoutEvent::Connected { outcome, cancelled, now } => match outcome {
            ConnectOutcome::Connected(conn) => {
                if cancelled {
                    core.discard_connection();
                    AsyncCheckoutAction::DisconnectAndFail { conn, error: DbPoolError::Timeout }
                } else {
                    core.record_warm_create();
                    finish_step(core, conn, now)
                }
            },
            ConnectOutcome::Failed(e) => {
                core.release_slot();
                AsyncCheckoutAction::Fail { error: DbPoolError::Connect(e) }
            },
            ConnectOutcome::Cancelled => {
                core.release_slot();
                AsyncCheckoutAction::Fail { error: DbPoolError::Timeout }
            },
            ConnectOutcome::Panicked => {
                core.release_slot();
                AsyncCheckoutAction::Fail { error: DbPoolError::Timeout }
            },
        },
    }
}

/// Whether cancellation was seen with the event.
pub open spec fn event_cancelled<C, E>(ev: AsyncCheckoutEvent<C, E>) -> bool {
    match ev {
        AsyncCheckoutEvent::Poll { cancelled, .. } => cancelled,
        AsyncCheckoutEvent::Validated { cancelled, .. } => cancelled,
        AsyncCheckoutEvent::Connected { cancelled, .. } => cancelled,
    }
}

/// An asynchronous checkout is cancellation-safe: a step that sees
/// cancellation hands nothing out, starts no further work, takes no slot and
/// leaves the idle connections as they were.
pub proof fn law_cancelled_checkout_is_safe<C, E>(
    o: PoolCoreView<C>,
    f: PoolCoreView<C>,
    validate: bool,
    ev: AsyncCheckoutEvent<C, E>,
    a: AsyncCheckoutAction<C, E>,
)
    requires
        event_cancelled(ev),
        async_step_post(o, f, validate, ev, a),
    ensures
        !(a is HandOut),
        !(a is Connect),
        !(a is Validate),
        !(a is DisconnectAndRetry),
        f.total <= o.total,
        f.idle == o.idle,
        f.closed == o.closed,
{
}

/// What acquiring with retries does after a failed attempt.
#[derive(Debug, Clone, Copy, PartialEq, Eq, Structural)]
pub enum RetryStep {
    /// Stop and report the attempt's error.
    GiveUp,
    /// Stop and report a timeout (one timeout more).
    TimedOut,
    /// Back off, then try again.
    Retry,
}

/// The step after attempt number `attempt` (counting from 1) failed with
/// `err`, with `remaining_ms` left before the acquisition deadline: only a
/// connect failure or a full pool is retried, while attempts are left and
/// time remains.
pub fn retry_step<E>(err: &DbPoolError<E>, attempt: u32, max_attempts: u32, remaining_ms: u64) -> (s: RetryStep)
    ensures
        !(*err matches DbPoolError::Connect(_) || *err matches DbPoolError::Full) ==> s == RetryStep::GiveUp,
        (*err matches DbPoolError::Connect(_) || *err matches DbPoolError::Full) ==> s == if attempt
            >= max_attempts {
            RetryStep::GiveUp
        } else if remaining_ms == 0 {
            RetryStep::TimedOut
        } else {
            RetryStep::Retry
        },
{
    let retryable = match err {
        DbPoolError::Connect(_) => true,
        DbPoolError::Full => true,
        _ => false,
    };
    if !retryable || attempt >= max_attempts {
        RetryStep::GiveUp
    } else if remaining_ms == 0 {
        RetryStep::TimedOut
    } else {
        RetryStep::Retry
    }
}


/// Acquiring never takes a pool past its capacity: from a pool within its
/// maximum size, whatever the manager answers, the pool stays within it.
pub proof fn law_checkout_respects_capacity<C>(
    o: PoolCoreView<C>,
    f: PoolCoreView<C>,
    now: u64,
    validate: bool,
    out: Option<(C, u64)>,
)
    requires
        !o.closed,
        o.total <= o.limits.max_size,
        checkout_post(o, f, now, validate, out),
    ensures
        f.total <= f.limits.max_size,
{
}

/// Acquiring keeps the count of checked-out connections (total less idle):
/// one more when a connection is handed out, the same otherwise, with every
/// idle connection still counted in the total.
pub proof fn law_checkout_active_count<C>(
    o: PoolCoreView<C>,
    f: PoolCoreView<C>,
    now: u64,
    validate: bool,
    out: Option<(C, u64)>,
)
    requires
        !o.closed,
        o.total >= o.idle.len(),
        checkout_post(o, f, now, validate, out),
    ensures
        f.total >= f.idle.len(),
        f.total - f.idle.len() == o.total - o.idle.len() + if out is Some {
            1int
        } else {
            0int
        },
{
}

/// Without validation, an idle connection that is not stale is reused: when
/// the only idle connection is fresh, acquiring hands out that connection
/// with its creation time.
pub proof fn law_fresh_idle_is_reused<C>(
    o: PoolCoreView<C>,
    f: PoolCoreView<C>,
    now: u64,
    out: Option<(C, u64)>,
)
    requires
        !o.closed,
        o.idle.len() == 1,
        !is_stale(o.idle[0], o.limits, now),
        checkout_post(o, f, now, false, out),
    ensures
        out == Some((o.idle[0].conn, o.idle[0].created_at)),
        f.idle.len() == 0,
{
    let taken = o.idle.len() - f.idle.len();
    let reused = out is Some && f.counters.total_creates == o.counters.total_creates;
    if !reused {
        assert(taken == 1);
        assert(o.idle.take(1).drop_last() =~= o.idle.take(0));
        assert(o.idle.take(1).last() == o.idle[0]);
        assert(count_fresh(o.idle.take(1), o.limits, now) == 1);
    }
}

} // verus!
