//! The pooled-connection execution bridge: hands units of work a connection
//! checked out of a bounded pool, returns it on every exit, and normalises
//! the failure modes — no connection in time, the work's own error, or an
//! abandoned worker — into one taxonomy so callers can tell a retryable
//! acquisition timeout from work that must not be re-run.

use diesel::Connection;
use vstd::prelude::*;

use crate::error::{AppError, ErrorKind};

verus! {

#[verifier::external_type_specification]
#[verifier::external_body]
pub struct ExDieselError(diesel::result::Error);

#[verifier::external_type_specification]
#[verifier::external_body]
pub struct ExPgConnection(diesel::PgConnection);

/// The bounded pool of diesel connections to PostgreSQL, held opaquely:
/// checkout and checkin are safe under arbitrary concurrent callers, which
/// is the pool's own responsibility.
#[verifier::external_body]
pub struct PgPool {
    pool: r2d2::Pool<diesel::r2d2::ConnectionManager<diesel::PgConnection>>,
}

/// A connection checked out of the pool, held opaquely; it returns to the
/// pool when dropped, on every exit path.
#[verifier::external_body]
pub struct Conn {
    conn: r2d2::PooledConnection<diesel::r2d2::ConnectionManager<diesel::PgConnection>>,
}

/// The pool's configuration under construction, held opaquely.
#[verifier::external_body]
pub struct PoolBuilder {
    builder: r2d2::Builder<diesel::r2d2::ConnectionManager<diesel::PgConnection>>,
}

impl Conn {
    /// Relies on the pooled connection's deref: the live connection this
    /// checkout holds, for the unit of work to run its queries on.
    #[verifier::external_body]
    pub fn pg(&self) -> &diesel::PgConnection {
        &self.conn
    }
}

/// The limits a pool runs under: the bound on open connections, the idle
/// minimum, connection lifetimes and the checkout wait, durations in
/// milliseconds.
#[derive(Clone, Copy, Debug, PartialEq, Eq, Structural)]
pub struct PoolConfig {
    pub max_size: u32,
    pub min_idle: Option<u32>,
    pub max_lifetime_ms: Option<u64>,
    pub idle_timeout_ms: Option<u64>,
    pub connection_timeout_ms: u64,
}

/// The limits a builder has accumulated so far.
pub uninterp spec fn builder_config(b: PoolBuilder) -> PoolConfig;

/// The limits a pool was assembled with.
pub uninterp spec fn pool_config(p: PgPool) -> PoolConfig;

/// The pool's defaults: ten connections at most, no idle minimum chosen (the
/// pool then targets the maximum), a half-hour lifetime, a ten-minute idle
/// timeout, and a thirty-second checkout wait.
pub open spec fn spec_default_pool_config() -> PoolConfig {
    PoolConfig {
        max_size: 10,
        min_idle: None,
        max_lifetime_ms: Some(1800000),
        idle_timeout_ms: Some(600000),
        connection_timeout_ms: 30000,
    }
}

/// How a bridged unit of work can fail.  `AcquireTimeout` may be retried;
/// `ExecutionFailed` must not be, since the work may not be idempotent;
/// `WorkerCancelled` means the off-path execution was abandoned.
#[derive(Debug, PartialEq)]
pub enum BridgeError<E> {
    /// No connection became available within the pool's wait policy.
    AcquireTimeout,
    /// The unit of work itself returned an error.
    ExecutionFailed(E),
    /// The worker running the unit of work was abandoned.
    WorkerCancelled,
}

// --- trusted plumbing around the pool -------------------------------------

/// Relies on `r2d2::Pool::get`: waits at most the configured connection
/// timeout for a connection, then reports an error.
#[verifier::external_body]
fn pool_get(pool: &PgPool) -> (r: Option<Conn>) {
    pool.pool.get().ok().map(|conn| Conn { conn })
}

/// Relies on `r2d2::Pool::clone`: a second handle onto the same pool, with
/// the same limits.
#[verifier::external_body]
fn pool_clone(pool: &PgPool) -> (r: PgPool)
    ensures
        pool_config(r) == pool_config(*pool),
{
    PgPool { pool: pool.pool.clone() }
}

/// Relies on `r2d2::Builder::new`: a builder carrying the default limits.
#[verifier::external_body]
fn pool_builder() -> (r: PoolBuilder)
    ensures
        builder_config(r) == spec_default_pool_config(),
{
    PoolBuilder { builder: r2d2::Pool::builder() }
}

/// Relies on `r2d2::Builder::max_size`: records the bound; panics on zero.
#[verifier::external_body]
fn builder_max_size(b: PoolBuilder, v: u32) -> (r: PoolBuilder)
    requires
        v > 0,
    ensures
        builder_config(r) == (PoolConfig { max_size: v, ..builder_config(b) }),
{
    PoolBuilder { builder: b.builder.max_size(v) }
}

/// Relies on `r2d2::Builder::min_idle`: records the idle minimum.
#[verifier::external_body]
fn builder_min_idle(b: PoolBuilder, v: u32) -> (r: PoolBuilder)
    ensures
        builder_config(r) == (PoolConfig { min_idle: Some(v), ..builder_config(b) }),
{
    PoolBuilder { builder: b.builder.min_idle(Some(v)) }
}

/// Relies on `r2d2::Builder::max_lifetime`: records the lifetime; panics on
/// a zero duration.
#[verifier::external_body]
fn builder_max_lifetime_ms(b: PoolBuilder, v: u64) -> (r: PoolBuilder)
    requires
        v > 0,
    ensures
        builder_config(r) == (PoolConfig { max_lifetime_ms: Some(v), ..builder_config(b) }),
{
    PoolBuilder { builder: b.builder.max_lifetime(Some(std::time::Duration::from_millis(v))) }
}

/// Relies on `r2d2::Builder::idle_timeout`: records the timeout; panics on a
/// zero duration.
#[verifier::external_body]
fn builder_idle_timeout_ms(b: PoolBuilder, v: u64) -> (r: PoolBuilder)
    requires
        v > 0,
    ensures
        builder_config(r) == (PoolConfig { idle_timeout_ms: Some(v), ..builder_config(b) }),
{
    PoolBuilder { builder: b.builder.idle_timeout(Some(std::time::Duration::from_millis(v))) }
}

/// Relies on `r2d2::Builder::connection_timeout`: records the checkout wait;
/// panics on a zero duration.
#[verifier::external_body]
fn builder_connection_timeout_ms(b: PoolBuilder, v: u64) -> (r: PoolBuilder)
    requires
        v > 0,
    ensures
        builder_config(r) == (PoolConfig { connection_timeout_ms: v, ..builder_config(b) }),
{
    PoolBuilder { builder: b.builder.connection_timeout(std::time::Duration::from_millis(v)) }
}

/// Relies on `diesel::r2d2::ConnectionManager::new` and
/// `r2d2::Builder::build_unchecked`: assembles the pool with exactly the
/// builder's limits, without opening a connection; connections are
/// established lazily on checkout.  `build_unchecked` panics when the idle
/// minimum exceeds the maximum size, so that input is excluded here.
#[verifier::external_body]
fn builder_open(b: PoolBuilder, url: &str) -> (r: PgPool)
    requires
        builder_config(b).min_idle matches Some(v) ==> v <= builder_config(b).max_size,
    ensures
        pool_config(r) == builder_config(b),
{
    PgPool { pool: b.builder.build_unchecked(diesel::r2d2::ConnectionManager::new(url)) }
}

/// Relies on diesel's `Connection::transaction`: runs the unit of work
/// bracketed by `BEGIN` and `COMMIT`, rolling the transaction back when the
/// work returns an error; the work's own result is handed through, and a
/// failure of the transaction machinery surfaces as the same error type.
#[verifier::external_body]
fn pg_transaction<R, F: FnOnce(&Conn) -> Result<R, diesel::result::Error>>(conn: &Conn, f: F) -> (r:
    Result<R, diesel::result::Error>)
    requires
        call_requires(f, (conn,)),
    ensures
        r matches Ok(v) ==> call_ensures(f, (conn,), Ok(v)),
{
    conn.conn.transaction(|| f(conn))
}

// --- the bridge ------------------------------------------------------------

/// A handle on the bounded connection pool.
pub struct Database {
    pub pool: PgPool,
}

impl Clone for Database {
    /// A second handle onto the same pool.
    fn clone(&self) -> (r: Database)
        ensures
            pool_config(r.pool) == pool_config(self.pool),
    {
        Database { pool: pool_clone(&self.pool) }
    }
}

impl Database {
    /// A builder with no limits chosen yet.
    pub fn builder() -> (b: DatabaseBuilder)
        ensures
            b.pool_max_size is None,
            b.pool_min_idle is None,
            b.pool_max_lifetime_ms is None,
            b.pool_idle_timeout_ms is None,
            b.pool_connection_timeout_ms is None,
    {
        DatabaseBuilder {
            pool_max_size: None,
            pool_min_idle: None,
            pool_max_lifetime_ms: None,
            pool_idle_timeout_ms: None,
            pool_connection_timeout_ms: None,
        }
    }

    /// Checks a connection out of the pool; an acquisition failure is
    /// reported as the pool error kind and nothing else.
    pub fn conn(&self) -> (r: Result<Conn, AppError>)
        ensures
            r matches Err(e) ==> e.kind == ErrorKind::DbPoolError,
    {
        match pool_get(&self.pool) {
            Some(c) => Ok(c),
            None => Err(AppError::new(ErrorKind::DbPoolError)),
        }
    }

    /// Runs one unit of work on a pooled connection: acquires, executes with
    /// exclusive use of the connection, and returns the connection to the
    /// pool on every exit.  The result is exactly the work's result; failure
    /// to acquire is the one other outcome, and nothing is ever cancelled on
    /// this path.
    pub fn run<R, E, F: FnOnce(&Conn) -> Result<R, E>>(&self, f: F) -> (r: Result<
        R,
        BridgeError<E>,
    >)
        requires
            forall|c: &Conn| call_requires(f, (c,)),
        ensures
            match r {
                Ok(v) => exists|c: &Conn, o: Result<R, E>|
                    #[trigger] call_ensures(f, (c,), o) && o == Ok::<R, E>(v),
                Err(BridgeError::ExecutionFailed(e)) => exists|c: &Conn, o: Result<R, E>|
                    #[trigger] call_ensures(f, (c,), o) && o == Err::<R, E>(e),
                Err(BridgeError::AcquireTimeout) => true,
                Err(BridgeError::WorkerCancelled) => false,
            },
    {
        let conn = match pool_get(&self.pool) {
            Some(c) => c,
            None => {
                return Err(BridgeError::AcquireTimeout);
            },
        };
        let out = f(&conn);
        proof {
            assert(call_ensures(f, (&conn,), out));
        }
        match out {
            Ok(v) => Ok(v),
            Err(e) => Err(BridgeError::ExecutionFailed(e)),
        }
    }

    /// Like [`Database::run`], but brackets the unit of work in a database
    /// transaction: committed when the work succeeds, rolled back when it
    /// errs.  A failure of the transaction machinery itself is reported as
    /// an execution failure, as diesel reports it.
    pub fn transaction<R, F: FnOnce(&Conn) -> Result<R, diesel::result::Error>>(&self, f: F) -> (r:
        Result<R, BridgeError<diesel::result::Error>>)
        requires
            forall|c: &Conn| call_requires(f, (c,)),
        ensures
            match r {
                Ok(v) => exists|c: &Conn, o: Result<R, diesel::result::Error>|
                    #[trigger] call_ensures(f, (c,), o) && o == Ok::<R, diesel::result::Error>(v),
                Err(BridgeError::ExecutionFailed(e)) => true,
                Err(BridgeError::AcquireTimeout) => true,
                Err(BridgeError::WorkerCancelled) => false,
            },
    {
        let conn = match pool_get(&self.pool) {
            Some(c) => c,
            None => {
                return Err(BridgeError::AcquireTimeout);
            },
        };
        let out = pg_transaction(&conn, f);
        let ghost gout = out;
        proof {
            match gout {
                Ok(v) => {
                    assert(call_ensures(f, (&conn,), Ok::<R, diesel::result::Error>(v)));
                },
                Err(_) => {},
            }
        }
        match out {
            Ok(v) => Ok(v),
            Err(e) => Err(BridgeError::ExecutionFailed(e)),
        }
    }
}

/// The pool's limits, each optional: the pool's defaults apply where no
/// value is chosen.  Durations are carried in milliseconds.
pub struct DatabaseBuilder {
    pub pool_max_size: Option<u32>,
    pub pool_min_idle: Option<u32>,
    pub pool_max_lifetime_ms: Option<u64>,
    pub pool_idle_timeout_ms: Option<u64>,
    pub pool_connection_timeout_ms: Option<u64>,
}

/// The limits the builder will hand to the pool: each chosen value, and the
/// pool's default where none was chosen.
pub open spec fn spec_chosen_config(b: DatabaseBuilder) -> PoolConfig {
    let d = spec_default_pool_config();
    PoolConfig {
        max_size: match b.pool_max_size {
            Some(v) => v,
            None => d.max_size,
        },
        min_idle: match b.pool_min_idle {
            Some(v) => Some(v),
            None => d.min_idle,
        },
        max_lifetime_ms: match b.pool_max_lifetime_ms {
            Some(v) => Some(v),
            None => d.max_lifetime_ms,
        },
        idle_timeout_ms: match b.pool_idle_timeout_ms {
            Some(v) => Some(v),
            None => d.idle_timeout_ms,
        },
        connection_timeout_ms: match b.pool_connection_timeout_ms {
            Some(v) => v,
            None => d.connection_timeout_ms,
        },
    }
}

/// The chosen limits avoid the values the pool rejects: a zero maximum size,
/// zero durations, or an idle minimum above the maximum size.
pub open spec fn builder_wf(b: DatabaseBuilder) -> bool {
    &&& (b.pool_max_size matches Some(v) ==> v > 0)
    &&& (b.pool_max_lifetime_ms matches Some(v) ==> v > 0)
    &&& (b.pool_idle_timeout_ms matches Some(v) ==> v > 0)
    &&& (b.pool_connection_timeout_ms matches Some(v) ==> v > 0)
    &&& (b.pool_min_idle matches Some(v) ==> v <= spec_chosen_config(b).max_size)
}

impl DatabaseBuilder {
    /// Sets the maximum number of connections.
    pub fn pool_max_size(self, max_size: u32) -> (r: DatabaseBuilder)
        requires
            max_size > 0,
        ensures
            r == (DatabaseBuilder { pool_max_size: Some(max_size), ..self }),
    {
        DatabaseBuilder { pool_max_size: Some(max_size), ..self }
    }

    /// Sets the minimum idle connection count.
    pub fn pool_min_idle(self, min_idle: Option<u32>) -> (r: DatabaseBuilder)
        ensures
            r == (DatabaseBuilder { pool_min_idle: min_idle, ..self }),
    {
        DatabaseBuilder { pool_min_idle: min_idle, ..self }
    }

    /// Sets the maximum lifetime of a connection, in milliseconds.
    pub fn pool_max_lifetime(self, max_lifetime_ms: Option<u64>) -> (r: DatabaseBuilder)
        requires
            max_lifetime_ms matches Some(v) ==> v > 0,
        ensures
            r == (DatabaseBuilder { pool_max_lifetime_ms: max_lifetime_ms, ..self }),
    {
        DatabaseBuilder { pool_max_lifetime_ms: max_lifetime_ms, ..self }
    }

    /// Sets the idle timeout, in milliseconds.
    pub fn pool_idle_timeout(self, idle_timeout_ms: Option<u64>) -> (r: DatabaseBuilder)
        requires
            idle_timeout_ms matches Some(v) ==> v > 0,
        ensures
            r == (DatabaseBuilder { pool_idle_timeout_ms: idle_timeout_ms, ..self }),
    {
        DatabaseBuilder { pool_idle_timeout_ms: idle_timeout_ms, ..self }
    }

    /// Sets how long a checkout waits for a connection, in milliseconds:
    /// the pool's wait policy.
    pub fn pool_connection_timeout(self, connection_timeout_ms: Option<u64>) -> (r: DatabaseBuilder)
        requires
            connection_timeout_ms matches Some(v) ==> v > 0,
        ensures
            r == (DatabaseBuilder { pool_connection_timeout_ms: connection_timeout_ms, ..self }),
    {
        DatabaseBuilder { pool_connection_timeout_ms: connection_timeout_ms, ..self }
    }

    /// Assembles the pool with the chosen limits over the given database
    /// url: each chosen value is carried into the pool, the pool's defaults
    /// stand where none was chosen.  No connection is opened here: the pool
    /// connects lazily, so the handle always comes back, even while the
    /// database is unreachable.
    pub fn open(&self, url: &str) -> (r: Database)
        requires
            builder_wf(*self),
        ensures
            pool_config(r.pool) == spec_chosen_config(*self),
    {
        let mut b = pool_builder();
        if let Some(v) = self.pool_max_size {
            b = builder_max_size(b, v);
        }
        if let Some(v) = self.pool_min_idle {
            b = builder_min_idle(b, v);
        }
        if let Some(v) = self.pool_max_lifetime_ms {
            b = builder_max_lifetime_ms(b, v);
        }
        if let Some(v) = self.pool_idle_timeout_ms {
            b = builder_idle_timeout_ms(b, v);
        }
        if let Some(v) = self.pool_connection_timeout_ms {
            b = builder_connection_timeout_ms(b, v);
        }
        Database { pool: builder_open(b, url) }
    }
}

/// How the server hands back a unit of work it moved off the request path:
/// either the dispatch completed with the bridge's result, or the worker
/// was abandoned before completing.
pub enum BlockingOutcome<R, E> {
    Completed(Result<R, BridgeError<E>>),
    Cancelled,
}

/// Normalises an off-path execution into the bridge's taxonomy: a completed
/// dispatch hands its result through unchanged, an abandoned one reports
/// `WorkerCancelled`.  Nothing is swallowed.
pub fn normalize_blocking<R, E>(outcome: BlockingOutcome<R, E>) -> (r: Result<R, BridgeError<E>>)
    ensures
        match outcome {
            BlockingOutcome::Completed(res) => r == res,
            BlockingOutcome::Cancelled => r matches Err(e) && e is WorkerCancelled,
        },
{
    match outcome {
        BlockingOutcome::Completed(res) => res,
        BlockingOutcome::Cancelled => Err(BridgeError::WorkerCancelled),
    }
}

} // verus!
