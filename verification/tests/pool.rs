use frankensearch::pool::{
    retry_step, ConnectionManager, DbPool, DbPoolConfig, DbPoolError, DbPoolStats, PoolCore,
    PoolLimits, RetryStep, Checkout,
};
use std::fmt;
use std::sync::atomic::{AtomicBool, AtomicUsize, Ordering};
use std::sync::Arc;
use std::time::Duration;

/// A simple in-memory connection for testing.
#[derive(Debug)]
struct TestConnection {
    id: usize,
    valid: Arc<AtomicBool>,
}

#[derive(Debug)]
struct TestManager {
    next_id: AtomicUsize,
    valid: Arc<AtomicBool>,
    creates: AtomicUsize,
    disconnects: AtomicUsize,
    fail_connect: AtomicBool,
}

impl TestManager {
    fn new() -> Self {
        Self {
            next_id: AtomicUsize::new(1),
            valid: Arc::new(AtomicBool::new(true)),
            creates: AtomicUsize::new(0),
            disconnects: AtomicUsize::new(0),
            fail_connect: AtomicBool::new(false),
        }
    }

    fn disconnects(&self) -> usize {
        self.disconnects.load(Ordering::SeqCst)
    }

    fn set_fail_connect(&self, fail: bool) {
        self.fail_connect.store(fail, Ordering::SeqCst);
    }

    fn set_valid(&self, valid: bool) {
        self.valid.store(valid, Ordering::SeqCst);
    }
}

#[derive(Debug)]
struct TestError(String);

impl fmt::Display for TestError {
    fn fmt(&self, f: &mut fmt::Formatter<'_>) -> fmt::Result {
        f.write_str(&self.0)
    }
}

impl std::error::Error for TestError {}

impl ConnectionManager for TestManager {
    type Connection = TestConnection;
    type Error = TestError;

    fn connect(&self) -> Result<Self::Connection, Self::Error> {
        if self.fail_connect.load(Ordering::SeqCst) {
            return Err(TestError("connection refused".to_string()));
        }
        self.creates.fetch_add(1, Ordering::SeqCst);
        let id = self.next_id.fetch_add(1, Ordering::SeqCst);
        Ok(TestConnection {
            id,
            valid: self.valid.clone(),
        })
    }

    fn is_valid(&self, conn: &Self::Connection) -> bool {
        conn.valid.load(Ordering::SeqCst)
    }

    fn disconnect(&self, _conn: Self::Connection) {
        self.disconnects.fetch_add(1, Ordering::SeqCst);
    }
}

fn error_text(err: &DbPoolError<TestError>) -> String {
    match err {
        DbPoolError::Connect(e) => err.display_with(&e.to_string()),
        _ => err.display_with(""),
    }
}

// ================================================================
// DbPoolConfig
// ================================================================

#[test]
fn config_defaults() {
    let config = DbPoolConfig::default();
    assert_eq!(config.min_idle, 1);
    assert_eq!(config.max_size, 10);
    assert!(config.validate_on_checkout);
    assert_eq!(config.idle_timeout, Duration::from_secs(600));
    assert_eq!(config.max_lifetime, Duration::from_secs(3600));
    assert_eq!(config.connection_timeout, Duration::from_secs(30));
}

#[test]
fn config_builder() {
    let config = DbPoolConfig::with_max_size(20)
        .min_idle(5)
        .validate_on_checkout(false)
        .idle_timeout(Duration::from_secs(120))
        .max_lifetime(Duration::from_secs(600))
        .connection_timeout(Duration::from_secs(10));

    assert_eq!(config.max_size, 20);
    assert_eq!(config.min_idle, 5);
    assert!(!config.validate_on_checkout);
    assert_eq!(config.idle_timeout, Duration::from_secs(120));
    assert_eq!(config.max_lifetime, Duration::from_secs(600));
    assert_eq!(config.connection_timeout, Duration::from_secs(10));
}

#[test]
fn config_debug_clone() {
    let config = DbPoolConfig::default();
    let dbg = format!("{config:?}");
    assert!(dbg.contains("DbPoolConfig"));
    let cloned = config;
    assert_eq!(cloned.max_size, 10);
}

// ================================================================
// DbPool basics
// ================================================================

#[test]
fn pool_new() {
    let pool = DbPool::new(TestManager::new(), DbPoolConfig::default());
    let stats = pool.stats();
    assert_eq!(stats.idle, 0);
    assert_eq!(stats.active, 0);
    assert_eq!(stats.total, 0);
    assert_eq!(stats.max_size, 10);
    assert!(!pool.is_closed());
}

#[test]
fn pool_with_manager() {
    let pool = DbPool::with_manager(TestManager::new());
    assert_eq!(pool.config().max_size, 10);
}

#[test]
fn pool_debug() {
    let pool = DbPool::new(TestManager::new(), DbPoolConfig::default());
    let dbg = format!("{pool:?}");
    assert!(dbg.contains("DbPool"));
    assert!(dbg.contains("max_size"));
    assert!(dbg.contains("stats"));
    assert!(dbg.contains("total_acquisitions: 0"));
}

// ================================================================
// Get / return
// ================================================================

#[test]
fn get_creates_connection() {
    let mut pool = DbPool::new(TestManager::new(), DbPoolConfig::default());
    let conn = pool.get(0).unwrap();
    assert_eq!(conn.get().id, 1);

    let stats = pool.stats();
    assert_eq!(stats.active, 1);
    assert_eq!(stats.total, 1);
    assert_eq!(stats.total_creates, 1);
}

#[test]
fn return_on_drop() {
    let mut pool = DbPool::new(TestManager::new(), DbPoolConfig::default());

    {
        let conn = pool.get(0).unwrap();
        assert_eq!(pool.stats().active, 1);
        conn.return_to_pool(&mut pool, 0);
    }
    assert_eq!(pool.stats().idle, 1);
    assert_eq!(pool.stats().active, 0);
}

#[test]
fn explicit_return() {
    let mut pool = DbPool::new(TestManager::new(), DbPoolConfig::default());

    let conn = pool.get(0).unwrap();
    conn.return_to_pool(&mut pool, 0);
    assert_eq!(pool.stats().idle, 1);
    assert_eq!(pool.stats().active, 0);
}

#[test]
fn reuse_idle_connection() {
    let mut pool = DbPool::new(TestManager::new(), DbPoolConfig::default());

    let conn1 = pool.get(0).unwrap();
    let id1 = conn1.get().id;
    conn1.return_to_pool(&mut pool, 0);

    let conn2 = pool.get(0).unwrap();
    assert_eq!(conn2.get().id, id1);
    assert_eq!(pool.stats().total_creates, 1);
}

// ================================================================
// Capacity limits
// ================================================================

#[test]
fn max_size_enforced() {
    let mut pool = DbPool::new(TestManager::new(), DbPoolConfig::with_max_size(2));

    let _c1 = pool.get(0).unwrap();
    let _c2 = pool.get(0).unwrap();

    let result = pool.get(0);
    assert!(matches!(result, Err(DbPoolError::Full)));
}

#[test]
fn capacity_frees_on_return() {
    let mut pool = DbPool::new(TestManager::new(), DbPoolConfig::with_max_size(1));

    let conn = pool.get(0).unwrap();
    conn.return_to_pool(&mut pool, 0);

    let _conn2 = pool.get(0).unwrap();
}

// ================================================================
// Discard
// ================================================================

#[test]
fn discard_removes_from_pool() {
    let mut pool = DbPool::new(TestManager::new(), DbPoolConfig::with_max_size(2));

    let conn = pool.get(0).unwrap();
    conn.discard(&mut pool);

    assert_eq!(pool.stats().total, 0);
    assert_eq!(pool.stats().total_discards, 1);
    assert_eq!(pool.manager().disconnects(), 1);
}

// ================================================================
// Health check / validation
// ================================================================

#[test]
fn validation_on_checkout_rejects_invalid() {
    let manager = TestManager::new();
    let mut pool = DbPool::new(manager, DbPoolConfig::default());

    let conn = pool.get(0).unwrap();
    conn.return_to_pool(&mut pool, 0);
    assert_eq!(pool.stats().idle, 1);

    pool.manager().set_valid(false);
    pool.manager().set_valid(true);
    pool.manager().set_valid(false);

    pool.manager().set_valid(false);
    let _result = pool.get(0);
    // The idle one gets rejected (validation failure), then a new one is created.
    assert_eq!(pool.stats().total_validation_failures, 1);
}

#[test]
fn no_validation_when_disabled() {
    let manager = TestManager::new();
    let config = DbPoolConfig::default().validate_on_checkout(false);
    let mut pool = DbPool::new(manager, config);

    let conn = pool.get(0).unwrap();
    conn.return_to_pool(&mut pool, 0);

    pool.manager().set_valid(false);

    let conn2 = pool.get(0).unwrap();
    assert_eq!(pool.stats().total_validation_failures, 0);
    conn2.return_to_pool(&mut pool, 0);
}

// ================================================================
// Connection failure
// ================================================================

#[test]
fn connect_failure_returns_error() {
    let manager = TestManager::new();
    manager.set_fail_connect(true);
    let mut pool = DbPool::new(manager, DbPoolConfig::default());

    let result = pool.get(0);
    assert!(matches!(result, Err(DbPoolError::Connect(_))));
    assert_eq!(pool.stats().total, 0);
}

#[test]
fn connect_failure_doesnt_leak_capacity() {
    let manager = TestManager::new();
    let mut pool = DbPool::new(manager, DbPoolConfig::with_max_size(2));

    pool.manager().set_fail_connect(true);
    let _ = pool.get(0);
    let _ = pool.get(0);

    pool.manager().set_fail_connect(false);
    let _c1 = pool.get(0).unwrap();
    let _c2 = pool.get(0).unwrap();
}

// ================================================================
// Close
// ================================================================

#[test]
fn close_rejects_new_gets() {
    let mut pool = DbPool::new(TestManager::new(), DbPoolConfig::default());
    pool.close();
    assert!(pool.is_closed());

    let result = pool.get(0);
    assert!(matches!(result, Err(DbPoolError::Closed)));
}

#[test]
fn close_drains_idle() {
    let mut pool = DbPool::new(TestManager::new(), DbPoolConfig::default());

    let conn = pool.get(0).unwrap();
    conn.return_to_pool(&mut pool, 0);
    assert_eq!(pool.stats().idle, 1);

    pool.close();
    assert_eq!(pool.stats().idle, 0);
    assert_eq!(pool.manager().disconnects(), 1);
    assert_eq!(pool.stats().total_discards, 1);
}

#[test]
fn close_discards_returned_connections() {
    let mut pool = DbPool::new(TestManager::new(), DbPoolConfig::default());

    let conn = pool.get(0).unwrap();
    pool.close();

    conn.return_to_pool(&mut pool, 0);
    assert_eq!(pool.stats().total, 0);
    assert_eq!(pool.manager().disconnects(), 1);
    assert_eq!(pool.stats().total_discards, 1);
}

// ================================================================
// try_get
// ================================================================

#[test]
fn try_get_success() {
    let mut pool = DbPool::new(TestManager::new(), DbPoolConfig::default());
    let conn = pool.try_get(0);
    assert!(conn.is_some());
}

#[test]
fn try_get_when_full() {
    let mut pool = DbPool::new(TestManager::new(), DbPoolConfig::with_max_size(1));
    let _held = pool.get(0).unwrap();
    assert!(pool.try_get(0).is_none());
}

// ================================================================
// Warm-up
// ================================================================

#[test]
fn warm_up_creates_connections() {
    let mut pool = DbPool::new(TestManager::new(), DbPoolConfig::default().min_idle(3));
    let created = pool.warm_up(0);
    assert_eq!(created, 3);
    assert_eq!(pool.stats().idle, 3);
    assert_eq!(pool.stats().total, 3);
}

#[test]
fn warm_up_respects_max_size() {
    let mut pool = DbPool::new(
        TestManager::new(),
        DbPoolConfig::with_max_size(2).min_idle(5),
    );
    let created = pool.warm_up(0);
    assert_eq!(created, 2);
    assert_eq!(pool.stats().total, 2);
}

// ================================================================
// PooledConnection
// ================================================================

#[test]
fn pooled_connection_deref() {
    let mut pool = DbPool::new(TestManager::new(), DbPoolConfig::default());
    let conn = pool.get(0).unwrap();
    assert_eq!(conn.get().id, 1);
}

// ================================================================
// DbPoolError
// ================================================================

#[test]
fn pool_error_display() {
    let closed: DbPoolError<TestError> = DbPoolError::Closed;
    assert!(error_text(&closed).contains("closed"));

    let full: DbPoolError<TestError> = DbPoolError::Full;
    assert!(error_text(&full).contains("capacity"));

    let timeout: DbPoolError<TestError> = DbPoolError::Timeout;
    assert!(error_text(&timeout).contains("timed out"));

    let connect: DbPoolError<TestError> = DbPoolError::Connect(TestError("refused".to_string()));
    assert!(error_text(&connect).contains("refused"));

    let validation: DbPoolError<TestError> = DbPoolError::ValidationFailed;
    assert!(error_text(&validation).contains("validation"));
}

#[test]
fn pool_error_debug() {
    let err: DbPoolError<TestError> = DbPoolError::Full;
    let dbg = format!("{err:?}");
    assert!(dbg.contains("Full"));
}

#[test]
fn pool_error_source() {
    let closed: DbPoolError<TestError> = DbPoolError::Closed;
    assert!(closed.source().is_none());

    let connect = DbPoolError::Connect(TestError("fail".to_string()));
    assert!(connect.source().is_some());
}

// ================================================================
// Stats
// ================================================================

#[test]
fn stats_track_lifecycle() {
    let mut pool = DbPool::new(TestManager::new(), DbPoolConfig::with_max_size(2));

    let c1 = pool.get(0).unwrap();
    let c2 = pool.get(0).unwrap();
    assert_eq!(pool.stats().total_creates, 2);
    assert_eq!(pool.stats().total_acquisitions, 2);
    assert_eq!(pool.stats().active, 2);

    c1.return_to_pool(&mut pool, 0);
    assert_eq!(pool.stats().idle, 1);
    assert_eq!(pool.stats().active, 1);

    c2.discard(&mut pool);
    assert_eq!(pool.stats().total_discards, 1);
    assert_eq!(pool.stats().total, 1);
}

#[test]
fn stats_default() {
    let stats = DbPoolStats::default();
    assert_eq!(stats.idle, 0);
    assert_eq!(stats.active, 0);
    assert_eq!(stats.total, 0);
}

#[test]
fn stats_debug_clone() {
    let stats = DbPoolStats::default();
    let dbg = format!("{stats:?}");
    assert!(dbg.contains("DbPoolStats"));
    let cloned = stats.clone();
    assert_eq!(stats.total, 0);
    assert_eq!(cloned.total, 0);
}

#[test]
fn pool_debug_reports_live_counter_values() {
    let mut pool = DbPool::new(TestManager::new(), DbPoolConfig::default());
    let _conn = pool.get(0).unwrap();

    let dbg = format!("{pool:?}");
    assert!(dbg.contains("total_acquisitions: 1"));
    assert!(dbg.contains("total_creates: 1"));
    assert!(dbg.contains("total_discards: 0"));
}

// ================================================================
// Staleness, eviction, retries
// ================================================================

#[test]
fn stale_idle_connection_is_replaced() {
    let config = DbPoolConfig::default().idle_timeout(Duration::from_millis(100));
    let mut pool = DbPool::new(TestManager::new(), config);
    let conn = pool.get(0).unwrap();
    conn.return_to_pool(&mut pool, 0);

    // Idle for 150 ms: discarded, then a new connection is made.
    let fresh = pool.get(150).unwrap();
    assert_eq!(fresh.get().id, 2);
    assert_eq!(fresh.created_at(), 150);
    let stats = pool.stats();
    assert_eq!(stats.total_discards, 1);
    assert_eq!(stats.total_creates, 2);
    assert_eq!(stats.total, 1);
    assert_eq!(pool.manager().disconnects(), 1);
}

#[test]
fn idle_connection_within_timeout_is_kept() {
    let config = DbPoolConfig::default().idle_timeout(Duration::from_millis(100));
    let mut pool = DbPool::new(TestManager::new(), config);
    let conn = pool.get(5).unwrap();
    conn.return_to_pool(&mut pool, 10);

    // Idle for exactly 100 ms: not over the timeout.
    let again = pool.get(110).unwrap();
    assert_eq!(again.get().id, 1);
    assert_eq!(again.created_at(), 5);
    assert_eq!(pool.stats().total_discards, 0);
}

#[test]
fn evict_stale_keeps_fresh_connections() {
    let config = DbPoolConfig::default().idle_timeout(Duration::from_millis(100));
    let mut pool = DbPool::new(TestManager::new(), config);
    let a = pool.get(0).unwrap();
    let b = pool.get(0).unwrap();
    a.return_to_pool(&mut pool, 0);
    b.return_to_pool(&mut pool, 80);

    let evicted = pool.evict_stale(150);
    assert_eq!(evicted, 1);
    let stats = pool.stats();
    assert_eq!(stats.idle, 1);
    assert_eq!(stats.total, 1);
    assert_eq!(stats.total_discards, 1);
    assert_eq!(pool.manager().disconnects(), 1);

    let kept = pool.get(150).unwrap();
    assert_eq!(kept.get().id, 2);
}

#[test]
fn expired_lifetime_is_discarded() {
    let config = DbPoolConfig::default().max_lifetime(Duration::from_secs(1));
    let mut pool = DbPool::new(TestManager::new(), config);
    let conn = pool.get(0).unwrap();
    conn.return_to_pool(&mut pool, 1_500);
    let next = pool.get(1_600).unwrap();
    assert_eq!(next.get().id, 2);
    assert_eq!(pool.stats().total_discards, 1);
}

#[test]
fn warm_up_on_closed_pool_creates_nothing() {
    let mut pool = DbPool::new(TestManager::new(), DbPoolConfig::default().min_idle(3));
    pool.close();
    assert_eq!(pool.warm_up(0), 0);
    assert_eq!(pool.stats().total, 0);
}

#[test]
fn warm_up_skips_failed_connects() {
    let manager = TestManager::new();
    manager.set_fail_connect(true);
    let mut pool = DbPool::new(manager, DbPoolConfig::default().min_idle(3));
    assert_eq!(pool.warm_up(0), 0);
    assert_eq!(pool.stats().total, 0);
    assert_eq!(pool.stats().total_creates, 0);
}

#[test]
fn retry_step_decisions() {
    let full: DbPoolError<TestError> = DbPoolError::Full;
    let connect: DbPoolError<TestError> = DbPoolError::Connect(TestError("x".to_string()));
    let closed: DbPoolError<TestError> = DbPoolError::Closed;
    let timeout: DbPoolError<TestError> = DbPoolError::Timeout;
    let invalid: DbPoolError<TestError> = DbPoolError::ValidationFailed;
    assert_eq!(retry_step(&full, 1, 3, 500), RetryStep::Retry);
    assert_eq!(retry_step(&connect, 2, 3, 500), RetryStep::Retry);
    assert_eq!(retry_step(&connect, 3, 3, 500), RetryStep::GiveUp);
    assert_eq!(retry_step(&full, 1, 3, 0), RetryStep::TimedOut);
    assert_eq!(retry_step(&closed, 1, 3, 500), RetryStep::GiveUp);
    assert_eq!(retry_step(&timeout, 1, 3, 500), RetryStep::GiveUp);
    assert_eq!(retry_step(&invalid, 1, 3, 500), RetryStep::GiveUp);
}

#[test]
fn core_checkout_steps() {
    let limits = PoolLimits { max_size: 1, max_lifetime_ms: 1_000, idle_timeout_ms: 100 };
    let mut core: PoolCore<u32> = PoolCore::new(limits);
    assert!(matches!(core.begin_checkout(0), Checkout::Create));
    assert!(matches!(core.begin_checkout(0), Checkout::Full));
    core.record_create();
    assert!(core.return_connection(7, 0, 10).is_none());
    match core.begin_checkout(50) {
        Checkout::Reuse { conn, created_at } => {
            assert_eq!(conn, 7);
            assert_eq!(created_at, 0);
        }
        _ => panic!("expected reuse"),
    }
    assert!(core.finish_checkout());
    assert!(core.return_connection(7, 0, 60).is_none());
    assert!(matches!(core.begin_checkout(200), Checkout::Discard { conn: 7 }));
    let stats = core.stats();
    assert_eq!(stats.total, 0);
    assert_eq!(stats.total_discards, 1);
    assert_eq!(stats.total_acquisitions, 2);
    core.record_timeout();
    assert_eq!(core.stats().total_timeouts, 1);
    let drained = core.close();
    assert!(drained.is_empty());
    assert!(core.is_closed());
    assert!(matches!(core.begin_checkout(300), Checkout::Closed));
    assert_eq!(core.return_connection(9, 0, 300), Some(9));
}

// ================================================================
// Asynchronous checkout steps
// ================================================================

use frankensearch::pool::{async_checkout_step, AsyncCheckoutAction, AsyncCheckoutEvent, ConnectOutcome};

fn core_with(max_size: usize) -> PoolCore<u32> {
    PoolCore::new(PoolLimits { max_size, max_lifetime_ms: 1_000, idle_timeout_ms: 100 })
}

#[test]
fn async_cancel_before_slot_changes_nothing() {
    let mut core = core_with(2);
    let a = async_checkout_step::<u32, TestError>(&mut core, true, AsyncCheckoutEvent::Poll { cancelled: true, now: 0 });
    assert!(matches!(a, AsyncCheckoutAction::Fail { error: DbPoolError::Timeout }));
    assert_eq!(core.stats().total, 0);
}

#[test]
fn async_connect_then_hand_out() {
    let mut core = core_with(1);
    let a = async_checkout_step::<u32, TestError>(&mut core, true, AsyncCheckoutEvent::Poll { cancelled: false, now: 0 });
    assert!(matches!(a, AsyncCheckoutAction::Connect));
    assert_eq!(core.stats().total, 1);
    let a = async_checkout_step::<u32, TestError>(
        &mut core,
        true,
        AsyncCheckoutEvent::Connected { outcome: ConnectOutcome::Connected(5), cancelled: false, now: 7 },
    );
    assert!(matches!(a, AsyncCheckoutAction::HandOut { conn: 5, created_at: 7 }));
    let stats = core.stats();
    assert_eq!(stats.total_creates, 1);
    assert_eq!(stats.total_acquisitions, 1);
    assert_eq!(stats.active, 1);
}

#[test]
fn async_cancel_during_connect_releases_slot() {
    let mut core = core_with(1);
    let _ = async_checkout_step::<u32, TestError>(&mut core, true, AsyncCheckoutEvent::Poll { cancelled: false, now: 0 });
    let a = async_checkout_step::<u32, TestError>(
        &mut core,
        true,
        AsyncCheckoutEvent::Connected { outcome: ConnectOutcome::Connected(5), cancelled: true, now: 7 },
    );
    assert!(matches!(a, AsyncCheckoutAction::DisconnectAndFail { conn: 5, error: DbPoolError::Timeout }));
    assert_eq!(core.stats().total, 0);
    assert_eq!(core.stats().total_discards, 1);
}

#[test]
fn async_connect_errors_release_slot_and_map() {
    let mut core = core_with(1);
    let _ = async_checkout_step::<u32, TestError>(&mut core, true, AsyncCheckoutEvent::Poll { cancelled: false, now: 0 });
    let a = async_checkout_step::<u32, TestError>(
        &mut core,
        true,
        AsyncCheckoutEvent::Connected {
            outcome: ConnectOutcome::Failed(TestError("refused".to_string())),
            cancelled: false,
            now: 0,
        },
    );
    assert!(matches!(a, AsyncCheckoutAction::Fail { error: DbPoolError::Connect(_) }));
    assert_eq!(core.stats().total, 0);
    let _ = async_checkout_step::<u32, TestError>(&mut core, true, AsyncCheckoutEvent::Poll { cancelled: false, now: 0 });
    let a = async_checkout_step::<u32, TestError>(
        &mut core,
        true,
        AsyncCheckoutEvent::Connected { outcome: ConnectOutcome::Panicked, cancelled: false, now: 0 },
    );
    assert!(matches!(a, AsyncCheckoutAction::Fail { error: DbPoolError::Timeout }));
    assert_eq!(core.stats().total, 0);
}

#[test]
fn async_validation_paths() {
    let mut core = core_with(2);
    assert!(core.return_connection(9, 0, 0).is_none());
    let a = async_checkout_step::<u32, TestError>(&mut core, true, AsyncCheckoutEvent::Poll { cancelled: false, now: 10 });
    assert!(matches!(a, AsyncCheckoutAction::Validate { conn: 9, created_at: 0 }));
    let a = async_checkout_step::<u32, TestError>(
        &mut core,
        true,
        AsyncCheckoutEvent::Validated { conn: 9, created_at: 0, valid: false, cancelled: false },
    );
    assert!(matches!(a, AsyncCheckoutAction::DisconnectAndRetry { conn: 9 }));
    assert_eq!(core.stats().total_validation_failures, 1);
    assert_eq!(core.stats().total_discards, 1);
}

#[test]
fn async_ready_connection_on_closed_pool_is_dropped() {
    let mut core = core_with(1);
    let _ = async_checkout_step::<u32, TestError>(&mut core, false, AsyncCheckoutEvent::Poll { cancelled: false, now: 0 });
    let _ = core.close();
    let a = async_checkout_step::<u32, TestError>(
        &mut core,
        false,
        AsyncCheckoutEvent::Connected { outcome: ConnectOutcome::Connected(3), cancelled: false, now: 0 },
    );
    assert!(matches!(a, AsyncCheckoutAction::DisconnectAndFail { conn: 3, error: DbPoolError::Closed }));
    assert_eq!(core.stats().total, 0);
    assert_eq!(core.stats().total_creates, 1);
}

#[test]
fn timeout_is_counted() {
    let mut pool = DbPool::new(TestManager::new(), DbPoolConfig::default());
    pool.record_timeout();
    assert_eq!(pool.stats().total_timeouts, 1);
}

#[test]
fn connect_failure_carries_manager_error_and_keeps_capacity() {
    let manager = TestManager::new();
    manager.set_fail_connect(true);
    let mut pool = DbPool::new(manager, DbPoolConfig::with_max_size(2));
    match pool.get(0) {
        Err(DbPoolError::Connect(e)) => assert_eq!(e.0, "connection refused"),
        _ => panic!("expected the manager's connect error"),
    }
    let stats = pool.stats();
    assert_eq!(stats.total, 0);
    assert_eq!(stats.total_creates, 0);
    assert_eq!(stats.total_acquisitions, 0);
}
