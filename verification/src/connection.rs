//! The connection core: one native-engine handle's worth of state.
//!
//! The connection owns the statement cache and the transaction manager, keeps
//! the advisory read-only flag, and records every SQL text handed to the
//! engine, in order. The native handle itself lives with the driver; each
//! operation that the engine answers takes that answer as a plain value, so
//! what the connection decides is verified for every possible answer.

use vstd::prelude::*;
use crate::bind_collector::{resolve_binds, resolved_binds, RawBytesBindCollector};
use crate::error::{ConnectionError, EngineError, Error};
use crate::query_fragment::{
    binds_of, first_error_of, flags_of, lemma_fragment_consistent, metadata_of, parts_ok,
    safe_to_cache, sql_of, QueryFragment,
};
use crate::statement::{collect_rows, first_stop, rows_of, StepOutcome};
use crate::statement_cache::{cache_keys_after, keys_of, MaybeCached, StatementCache};
use crate::transaction_manager::{
    begin_sql_spec, commit_sql_spec, rollback_sql_spec, AnsiTransactionManager,
};

verus! {

/// The SQL texts of a log, in order.
pub open spec fn log_view(log: Seq<String>) -> Seq<Seq<char>> {
    log.map(|i: int, s: String| s@)
}

/// The transaction depth after one complete run of a transaction helper,
/// given which engine answers succeeded: a failed begin leaves the depth
/// alone, a successful finish restores it, a failed finish leaves the level
/// open.
pub open spec fn tx_depth_after(depth: nat, begin_ok: bool, finish_ok: bool) -> nat {
    if !begin_ok {
        depth
    } else if finish_ok {
        depth
    } else {
        depth + 1
    }
}

/// The statements one complete run of a transaction helper issues: the begin
/// statement, then — when the begin succeeded — `COMMIT` after a closure
/// success or `ROLLBACK` after a closure failure.
pub open spec fn tx_log_delta(
    depth: nat,
    begin_sql: Seq<char>,
    begin_ok: bool,
    f_ok: bool,
) -> Seq<Seq<char>> {
    if !begin_ok {
        seq![begin_sql]
    } else if f_ok {
        seq![begin_sql, commit_sql_spec(depth + 1)]
    } else {
        seq![begin_sql, rollback_sql_spec(depth + 1)]
    }
}

/// The statements a caller-chosen `BEGIN` variant helper issues: nothing at
/// all while a transaction is already open.
pub open spec fn tx_sql_log_delta(
    depth: nat,
    begin_sql: Seq<char>,
    begin_ok: bool,
    f_ok: bool,
) -> Seq<Seq<char>> {
    if depth != 0 {
        Seq::empty()
    } else {
        tx_log_delta(0, begin_sql, begin_ok, f_ok)
    }
}

/// How one run of a transaction helper ends.
#[derive(Debug, PartialEq)]
pub enum TransactionOutcome<T, E> {
    /// The closure succeeded and `COMMIT` went through.
    Committed(T),
    /// The closure failed; `ROLLBACK` was issued and went through, and the
    /// closure's own error comes back.
    RolledBack(E),
    /// The begin statement failed, or a transaction was already open; the
    /// closure never ran.
    BeginFailed(Error),
    /// The closure succeeded but `COMMIT` failed: the level is still open.
    CommitFailed(Error),
    /// The closure failed and the `ROLLBACK` after it failed too: both errors
    /// are surfaced, neither swallowed.
    RollbackFailed { closure_error: E, rollback_error: Error },
}

/// One connection to the embedded database.
#[derive(Debug, PartialEq)]
pub struct SqliteConnection {
    pub statement_cache: StatementCache,
    pub transaction_manager: AnsiTransactionManager,
    /// Advisory flag: a designated read-only transaction is running.
    pub readonly_tx: bool,
    /// Whether the driver registered an observer for SQL about to run.
    pub on_execute: bool,
    /// The engine's mutation count after the last executed statement.
    pub rows_affected: u64,
    /// Every SQL text handed to the engine, in order.
    pub sql_log: Vec<String>,
    /// The custom scalar functions registered so far: name and determinism.
    pub registered_functions: Vec<(String, bool)>,
    pub database_url: String,
}

/// Whether the connection is inside a designated read-only transaction.
/// Advisory only: it blocks nothing, it lets other code branch without an
/// extra parameter.
pub fn is_readonly_tx(conn: &SqliteConnection) -> (r: bool)
    ensures
        r == conn.readonly_tx,
{
    conn.readonly_tx
}

impl SqliteConnection {
    /// The statement cache holds well-formed entries.
    pub open spec fn wf(self) -> bool {
        self.statement_cache.wf()
    }

    /// Opens a connection to the store named by `database_url` (a file path,
    /// a URI, or the in-memory identifier); `open_outcome` is the engine's
    /// answer. A fresh connection has an empty cache, no open transaction,
    /// and an empty log.
    pub fn establish(database_url: &str, open_outcome: Result<(), EngineError>) -> (r: Result<
        SqliteConnection,
        ConnectionError,
    >)
        ensures
            match open_outcome {
                Ok(()) => match r {
                    Ok(c) => {
                        &&& c.wf()
                        &&& c.statement_cache.entries@.len() == 0
                        &&& c.transaction_manager.transaction_depth == 0
                        &&& c.readonly_tx == false
                        &&& c.on_execute == false
                        &&& c.rows_affected == 0
                        &&& c.sql_log@.len() == 0
                        &&& c.registered_functions@.len() == 0
                        &&& c.database_url@ == database_url@
                    },
                    Err(_) => false,
                },
                Err(e) => r == Err::<SqliteConnection, ConnectionError>(
                    ConnectionError::BadConnection(e),
                ),
            },
    {
        match open_outcome {
            Ok(()) => Ok(
                SqliteConnection {
                    statement_cache: StatementCache::new(),
                    transaction_manager: AnsiTransactionManager::new(),
                    readonly_tx: false,
                    on_execute: false,
                    rows_affected: 0,
                    sql_log: Vec::new(),
                    registered_functions: Vec::new(),
                    database_url: database_url.to_owned(),
                },
            ),
            Err(e) => Err(ConnectionError::BadConnection(e)),
        }
    }

    /// Runs one or more statements with no parameter binding; `exec_outcome`
    /// is the engine's answer, carrying its mutation count on success. The
    /// query is handed to the engine (and so logged) either way.
    pub fn batch_execute(&mut self, query: &str, exec_outcome: Result<u64, EngineError>) -> (r:
        Result<(), Error>)
        ensures
            log_view(final(self).sql_log@) == log_view(old(self).sql_log@).push(query@),
            final(self).statement_cache == old(self).statement_cache,
            final(self).transaction_manager == old(self).transaction_manager,
            final(self).readonly_tx == old(self).readonly_tx,
            match exec_outcome {
                Ok(n) => r is Ok && final(self).rows_affected == n,
                Err(e) => r == Err::<(), Error>(Error::DatabaseError(e)) && final(self).rows_affected == old(self).rows_affected,
            },
    {
        let ghost pre_log = self.sql_log@;
        self.sql_log.push(query.to_owned());
        proof {
            assert(log_view(self.sql_log@) =~= log_view(pre_log).push(query@));
        }
        match exec_outcome {
            Ok(n) => {
                self.rows_affected = n;
                Ok(())
            },
            Err(e) => Err(Error::DatabaseError(e)),
        }
    }

    /// Runs `query` and reports the engine's mutation count.
    pub fn execute(&mut self, query: &str, exec_outcome: Result<u64, EngineError>) -> (r: Result<
        u64,
        Error,
    >)
        ensures
            log_view(final(self).sql_log@) == log_view(old(self).sql_log@).push(query@),
            final(self).statement_cache == old(self).statement_cache,
            final(self).transaction_manager == old(self).transaction_manager,
            match exec_outcome {
                Ok(n) => r == Ok::<u64, Error>(n) && final(self).rows_affected == n,
                Err(e) => r == Err::<u64, Error>(Error::DatabaseError(e)),
            },
    {
        match self.batch_execute(query, exec_outcome) {
            Ok(()) => Ok(self.rows_affected),
            Err(e) => Err(e),
        }
    }

    /// The engine's mutation count after the most recently executed
    /// statement.
    pub fn rows_affected_by_last_query(&self) -> (r: u64)
        ensures
            r == self.rows_affected,
    {
        self.rows_affected
    }

    /// The connection's transaction manager.
    pub fn transaction_manager(&self) -> (r: &AnsiTransactionManager)
        ensures
            *r == self.transaction_manager,
    {
        &self.transaction_manager
    }

    /// Registers a driver-side observer that will see every SQL text about
    /// to run.
    pub fn set_on_execute(&mut self)
        ensures
            *final(self) == (SqliteConnection { on_execute: true, ..*old(self) }),
    {
        self.on_execute = true;
    }

    /// Removes the observer.
    pub fn clear_on_execute(&mut self)
        ensures
            *final(self) == (SqliteConnection { on_execute: false, ..*old(self) }),
    {
        self.on_execute = false;
    }

    /// Records a custom scalar function (its name and determinism flag) once
    /// the engine accepted its registration; the native callback stays with
    /// the driver.
    pub fn register_sql_function(
        &mut self,
        fn_name: &str,
        deterministic: bool,
        register_outcome: Result<(), EngineError>,
    ) -> (r: Result<(), Error>)
        ensures
            final(self).statement_cache == old(self).statement_cache,
            final(self).transaction_manager == old(self).transaction_manager,
            final(self).sql_log == old(self).sql_log,
            match register_outcome {
                Ok(()) => {
                    &&& r is Ok
                    &&& final(self).registered_functions@.len() == old(
                        self,
                    ).registered_functions@.len() + 1
                    &&& final(self).registered_functions@.last().0@ == fn_name@
                    &&& final(self).registered_functions@.last().1 == deterministic
                    &&& final(self).registered_functions@.take(
                        old(self).registered_functions@.len() as int,
                    ) == old(self).registered_functions@
                },
                Err(e) => r == Err::<(), Error>(Error::DatabaseError(e)) && final(self).registered_functions == old(self).registered_functions,
            },
    {
        match register_outcome {
            Ok(()) => {
                self.registered_functions.push((fn_name.to_owned(), deterministic));
                proof {
                    assert(self.registered_functions@.take(
                        old(self).registered_functions@.len() as int,
                    ) =~= old(self).registered_functions@);
                }
                Ok(())
            },
            Err(e) => Err(Error::DatabaseError(e)),
        }
    }
}

impl SqliteConnection {
    /// Resolves the prepared statement for one query: renders its SQL,
    /// decides cacheability from its shape alone, and asks the cache. The
    /// SQL is logged exactly when the engine is asked to compile it (a cache
    /// hit compiles nothing). `prepare_outcome` is the engine's answer to
    /// that compilation and is consulted only then.
    pub fn cached_prepared_statement(
        &mut self,
        source: &QueryFragment,
        prepare_outcome: Result<(), EngineError>,
    ) -> (r: Result<MaybeCached, Error>)
        requires
            old(self).wf(),
        ensures
            final(self).wf(),
            final(self).transaction_manager == old(self).transaction_manager,
            final(self).readonly_tx == old(self).readonly_tx,
            final(self).rows_affected == old(self).rows_affected,
            keys_of(final(self).statement_cache.entries@) == cache_keys_after(
                keys_of(old(self).statement_cache.entries@),
                sql_of(source.parts@),
                safe_to_cache(source.parts@),
                prepare_outcome is Ok,
            ),
            ({
                let sql = sql_of(source.parts@);
                let safe = safe_to_cache(source.parts@);
                let hit = safe && keys_of(old(self).statement_cache.entries@).contains(sql);
                &&& (hit ==> log_view(final(self).sql_log@) == log_view(old(self).sql_log@))
                &&& (!hit ==> log_view(final(self).sql_log@) == log_view(
                    old(self).sql_log@,
                ).push(sql))
                &&& if hit {
                    match r {
                        Ok(mc) => mc is Cached && mc.statement().sql@ == sql
                            && mc.statement().binds@.len() == 0,
                        Err(_) => false,
                    }
                } else {
                    match prepare_outcome {
                        Ok(()) => match r {
                            Ok(mc) => (mc is Cached <==> safe) && mc.statement().sql@ == sql
                                && mc.statement().binds@.len() == 0,
                            Err(_) => false,
                        },
                        Err(e) => r == Err::<MaybeCached, Error>(Error::DatabaseError(e)),
                    }
                }
            }),
    {
        let sql = source.to_sql();
        let safe = source.is_safe_to_cache_prepared();
        let hit = safe && self.statement_cache.contains(&sql);
        if !hit {
            let ghost pre_log = self.sql_log@;
            self.sql_log.push(sql.clone());
            proof {
                assert(log_view(self.sql_log@) =~= log_view(pre_log).push(sql@));
            }
        }
        self.statement_cache.cached_statement(sql, safe, prepare_outcome)
    }

    /// Prepares one query for execution: resolves the statement through the
    /// cache, collects the serialized binds the fragment carries, and applies
    /// the resolution walk so the statement holds NULL at each omitted column
    /// and the collected values, in their original order, everywhere else.
    /// A serialization failure surfaces before any value is bound: the
    /// statement then carries no bound values at all (a freshly prepared or
    /// cached statement stays reset).
    pub fn prepare_query(
        &mut self,
        source: QueryFragment,
        prepare_outcome: Result<(), EngineError>,
    ) -> (r: Result<MaybeCached, Error>)
        requires
            old(self).wf(),
        ensures
            final(self).wf(),
            final(self).transaction_manager == old(self).transaction_manager,
            final(self).readonly_tx == old(self).readonly_tx,
            keys_of(final(self).statement_cache.entries@) == cache_keys_after(
                keys_of(old(self).statement_cache.entries@),
                sql_of(source.parts@),
                safe_to_cache(source.parts@),
                prepare_outcome is Ok,
            ),
            ({
                let sql = sql_of(source.parts@);
                let safe = safe_to_cache(source.parts@);
                let hit = safe && keys_of(old(self).statement_cache.entries@).contains(sql);
                if !hit && prepare_outcome is Err {
                    r == Err::<MaybeCached, Error>(Error::DatabaseError(prepare_outcome->Err_0))
                } else if !parts_ok(source.parts@) {
                    match r {
                        Err(Error::SerializationError(c)) => c@ == first_error_of(source.parts@),
                        _ => false,
                    }
                } else {
                    match r {
                        Ok(mc) => (mc is Cached <==> safe) && mc.statement().sql@ == sql
                            && mc.statement().binds@ == resolved_binds(
                            flags_of(source.parts@),
                            metadata_of(source.parts@),
                            binds_of(source.parts@),
                        ),
                        Err(_) => false,
                    }
                }
            }),
    {
        let ghost parts_snapshot = source.parts@;
        let cached = match self.cached_prepared_statement(&source, prepare_outcome) {
            Ok(c) => c,
            Err(e) => {
                return Err(e);
            },
        };
        let mut collector = RawBytesBindCollector::new();
        match source.collect_binds(&mut collector) {
            Ok(()) => {},
            Err(e) => {
                return Err(e);
            },
        }
        proof {
            lemma_fragment_consistent(parts_snapshot);
            assert(collector.metadata@ =~= metadata_of(parts_snapshot));
            assert(collector.binds@ =~= binds_of(parts_snapshot));
            assert(collector.value_is_none@ =~= flags_of(parts_snapshot));
        }
        let resolved = resolve_binds(collector.value_is_none, collector.metadata, collector.binds);
        match cached {
            MaybeCached::CannotCache(mut st) => {
                st.binds = resolved;
                Ok(MaybeCached::CannotCache(st))
            },
            MaybeCached::Cached(mut st) => {
                st.binds = resolved;
                Ok(MaybeCached::Cached(st))
            },
        }
    }

    /// Prepares one query and drains its row cursor, handing back the raw
    /// rows for the caller's positional decoder.
    pub fn query_by_index(
        &mut self,
        source: QueryFragment,
        prepare_outcome: Result<(), EngineError>,
        steps: Vec<StepOutcome>,
    ) -> (r: Result<Vec<Vec<Option<Vec<u8>>>>, Error>)
        requires
            old(self).wf(),
            first_stop(steps@) < steps@.len(),
        ensures
            final(self).wf(),
            final(self).transaction_manager == old(self).transaction_manager,
            keys_of(final(self).statement_cache.entries@) == cache_keys_after(
                keys_of(old(self).statement_cache.entries@),
                sql_of(source.parts@),
                safe_to_cache(source.parts@),
                prepare_outcome is Ok,
            ),
            ({
                let sql = sql_of(source.parts@);
                let safe = safe_to_cache(source.parts@);
                let hit = safe && keys_of(old(self).statement_cache.entries@).contains(sql);
                let stop = first_stop(steps@);
                if !hit && prepare_outcome is Err {
                    r == Err::<Vec<Vec<Option<Vec<u8>>>>, Error>(
                        Error::DatabaseError(prepare_outcome->Err_0),
                    )
                } else if !parts_ok(source.parts@) {
                    match r {
                        Err(Error::SerializationError(c)) => c@ == first_error_of(source.parts@),
                        _ => false,
                    }
                } else {
                    match steps@[stop] {
                        StepOutcome::Done => match r {
                            Ok(rows) => rows@ == rows_of(steps@, stop),
                            Err(_) => false,
                        },
                        StepOutcome::Failed(e) => r == Err::<Vec<Vec<Option<Vec<u8>>>>, Error>(
                            Error::DatabaseError(e),
                        ),
                        StepOutcome::Row(_) => false,
                    }
                }
            }),
    {
        match self.prepare_query(source, prepare_outcome) {
            Ok(_statement) => collect_rows(steps),
            Err(e) => Err(e),
        }
    }

    /// Prepares one query and drains its row cursor for a by-name decoder:
    /// the column names are read first (`columns` is the engine's answer) and
    /// come back beside the raw rows.
    pub fn query_by_name(
        &mut self,
        source: QueryFragment,
        prepare_outcome: Result<(), EngineError>,
        columns: Result<Vec<String>, EngineError>,
        steps: Vec<StepOutcome>,
    ) -> (r: Result<(Vec<String>, Vec<Vec<Option<Vec<u8>>>>), Error>)
        requires
            old(self).wf(),
            first_stop(steps@) < steps@.len(),
        ensures
            final(self).wf(),
            final(self).transaction_manager == old(self).transaction_manager,
            keys_of(final(self).statement_cache.entries@) == cache_keys_after(
                keys_of(old(self).statement_cache.entries@),
                sql_of(source.parts@),
                safe_to_cache(source.parts@),
                prepare_outcome is Ok,
            ),
            ({
                let sql = sql_of(source.parts@);
                let safe = safe_to_cache(source.parts@);
                let hit = safe && keys_of(old(self).statement_cache.entries@).contains(sql);
                let stop = first_stop(steps@);
                if !hit && prepare_outcome is Err {
                    r == Err::<(Vec<String>, Vec<Vec<Option<Vec<u8>>>>), Error>(
                        Error::DatabaseError(prepare_outcome->Err_0),
                    )
                } else if !parts_ok(source.parts@) {
                    match r {
                        Err(Error::SerializationError(c)) => c@ == first_error_of(source.parts@),
                        _ => false,
                    }
                } else {
                    match columns {
                        Err(e) => r == Err::<(Vec<String>, Vec<Vec<Option<Vec<u8>>>>), Error>(
                            Error::DatabaseError(e),
                        ),
                        Ok(cols) => match steps@[stop] {
                            StepOutcome::Done => match r {
                                Ok(pair) => pair.0 == cols && pair.1@ == rows_of(steps@, stop),
                                Err(_) => false,
                            },
                            StepOutcome::Failed(e) => r == Err::<
                                (Vec<String>, Vec<Vec<Option<Vec<u8>>>>),
                                Error,
                            >(Error::DatabaseError(e)),
                            StepOutcome::Row(_) => false,
                        },
                    }
                }
            }),
    {
        match self.prepare_query(source, prepare_outcome) {
            Ok(_statement) => match columns {
                Ok(cols) => match collect_rows(steps) {
                    Ok(rows) => Ok((cols, rows)),
                    Err(e) => Err(e),
                },
                Err(e) => Err(Error::DatabaseError(e)),
            },
            Err(e) => Err(e),
        }
    }

    /// Prepares one query, runs it to completion, and reports the engine's
    /// mutation count (`run_outcome` is the engine's answer to that run).
    pub fn execute_returning_count(
        &mut self,
        source: QueryFragment,
        prepare_outcome: Result<(), EngineError>,
        run_outcome: Result<u64, EngineError>,
    ) -> (r: Result<u64, Error>)
        requires
            old(self).wf(),
        ensures
            final(self).wf(),
            final(self).transaction_manager == old(self).transaction_manager,
            keys_of(final(self).statement_cache.entries@) == cache_keys_after(
                keys_of(old(self).statement_cache.entries@),
                sql_of(source.parts@),
                safe_to_cache(source.parts@),
                prepare_outcome is Ok,
            ),
            ({
                let sql = sql_of(source.parts@);
                let safe = safe_to_cache(source.parts@);
                let hit = safe && keys_of(old(self).statement_cache.entries@).contains(sql);
                if !hit && prepare_outcome is Err {
                    r == Err::<u64, Error>(Error::DatabaseError(prepare_outcome->Err_0))
                } else if !parts_ok(source.parts@) {
                    match r {
                        Err(Error::SerializationError(c)) => c@ == first_error_of(source.parts@),
                        _ => false,
                    }
                } else {
                    match run_outcome {
                        Ok(n) => r == Ok::<u64, Error>(n) && final(self).rows_affected == n,
                        Err(e) => r == Err::<u64, Error>(Error::DatabaseError(e)),
                    }
                }
            }),
    {
        match self.prepare_query(source, prepare_outcome) {
            Ok(_statement) => match run_outcome {
                Ok(n) => {
                    self.rows_affected = n;
                    Ok(n)
                },
                Err(e) => Err(Error::DatabaseError(e)),
            },
            Err(e) => Err(e),
        }
    }
}

impl SqliteConnection {
    /// One complete run of the plain transaction helper, which marks the call
    /// read-only for its duration. The helper issues `BEGIN` (or a savepoint
    /// below the outermost level), consults the closure's result only if that
    /// succeeded, then issues `COMMIT` on closure success and `ROLLBACK` on
    /// closure failure, and clears the read-only flag on every exit. The
    /// engine's answer to each issued statement comes in as a value; the
    /// depth returns to its pre-call value whenever the finishing statement
    /// went through, and a failed finish leaves the level open and surfaces
    /// the second error beside the closure's own.
    pub fn transaction<T, E>(
        &mut self,
        begin_outcome: Result<(), EngineError>,
        f_result: Result<T, E>,
        finish_outcome: Result<(), EngineError>,
    ) -> (r: TransactionOutcome<T, E>)
        requires
            old(self).transaction_manager.transaction_depth < u64::MAX,
        ensures
            final(self).readonly_tx == false,
            final(self).statement_cache == old(self).statement_cache,
            final(self).rows_affected == old(self).rows_affected,
            final(self).transaction_manager.transaction_depth as nat == tx_depth_after(
                old(self).transaction_manager.transaction_depth as nat,
                begin_outcome is Ok,
                finish_outcome is Ok,
            ),
            log_view(final(self).sql_log@) == log_view(old(self).sql_log@) + tx_log_delta(
                old(self).transaction_manager.transaction_depth as nat,
                begin_sql_spec(old(self).transaction_manager.transaction_depth as nat),
                begin_outcome is Ok,
                f_result is Ok,
            ),
            match begin_outcome {
                Err(e) => r == TransactionOutcome::<T, E>::BeginFailed(Error::DatabaseError(e)),
                Ok(()) => match f_result {
                    Ok(t) => match finish_outcome {
                        Ok(()) => r == TransactionOutcome::<T, E>::Committed(t),
                        Err(e2) => r == TransactionOutcome::<T, E>::CommitFailed(
                            Error::DatabaseError(e2),
                        ),
                    },
                    Err(fe) => match finish_outcome {
                        Ok(()) => r == TransactionOutcome::<T, E>::RolledBack(fe),
                        Err(e2) => r == (TransactionOutcome::<T, E>::RollbackFailed {
                            closure_error: fe,
                            rollback_error: Error::DatabaseError(e2),
                        }),
                    },
                },
            },
    {
        let ghost pre_log = self.sql_log@;
        self.readonly_tx = true;
        let begin_sql = self.transaction_manager.begin_transaction_sql_text();
        let ghost begin_text = begin_sql@;
        self.sql_log.push(begin_sql);
        proof {
            assert(log_view(self.sql_log@) =~= log_view(pre_log).push(begin_text));
        }
        let began = self.transaction_manager.begin_transaction(begin_outcome);
        if let Err(e) = began {
            self.readonly_tx = false;
            proof {
                assert(log_view(pre_log).push(begin_text) =~= log_view(pre_log) + seq![begin_text]);
            }
            return TransactionOutcome::BeginFailed(e);
        }
        match f_result {
            Ok(t) => {
                let finish_sql = match self.transaction_manager.commit_sql_text() {
                    Ok(s) => s,
                    Err(_) => {
                        proof {
                            assert(false);
                        }
                        String::new()
                    },
                };
                let ghost finish_text = finish_sql@;
                self.sql_log.push(finish_sql);
                let fin = self.transaction_manager.commit_transaction(finish_outcome);
                self.readonly_tx = false;
                proof {
                    assert(log_view(self.sql_log@) =~= log_view(pre_log) + seq![
                        begin_text,
                        finish_text,
                    ]);
                }
                match fin {
                    Ok(()) => TransactionOutcome::Committed(t),
                    Err(e) => TransactionOutcome::CommitFailed(e),
                }
            },
            Err(fe) => {
                let finish_sql = match self.transaction_manager.rollback_sql_text() {
                    Ok(s) => s,
                    Err(_) => {
                        proof {
                            assert(false);
                        }
                        String::new()
                    },
                };
                let ghost finish_text = finish_sql@;
                self.sql_log.push(finish_sql);
                let fin = self.transaction_manager.rollback_transaction(finish_outcome);
                self.readonly_tx = false;
                proof {
                    assert(log_view(self.sql_log@) =~= log_view(pre_log) + seq![
                        begin_text,
                        finish_text,
                    ]);
                }
                match fin {
                    Ok(()) => TransactionOutcome::RolledBack(fe),
                    Err(e) => TransactionOutcome::RollbackFailed {
                        closure_error: fe,
                        rollback_error: e,
                    },
                }
            },
        }
    }

    /// One complete run of a transaction helper that opens with a
    /// caller-chosen `BEGIN` variant. While a transaction is already open it
    /// fails with a transaction-state error and issues nothing at all;
    /// otherwise it behaves as the plain helper does, except that it does not
    /// touch the read-only flag.
    pub fn transaction_sql<T, E>(
        &mut self,
        sql: &str,
        begin_outcome: Result<(), EngineError>,
        f_result: Result<T, E>,
        finish_outcome: Result<(), EngineError>,
    ) -> (r: TransactionOutcome<T, E>)
        ensures
            final(self).readonly_tx == old(self).readonly_tx,
            final(self).statement_cache == old(self).statement_cache,
            final(self).rows_affected == old(self).rows_affected,
            old(self).transaction_manager.transaction_depth > 0 ==> *final(self) == *old(self) && r
                == TransactionOutcome::<T, E>::BeginFailed(Error::AlreadyInTransaction),
            log_view(final(self).sql_log@) == log_view(old(self).sql_log@) + tx_sql_log_delta(
                old(self).transaction_manager.transaction_depth as nat,
                sql@,
                begin_outcome is Ok,
                f_result is Ok,
            ),
            old(self).transaction_manager.transaction_depth == 0 ==> {
                &&& final(self).transaction_manager.transaction_depth as nat == tx_depth_after(
                    0,
                    begin_outcome is Ok,
                    finish_outcome is Ok,
                )
                &&& match begin_outcome {
                    Err(e) => r == TransactionOutcome::<T, E>::BeginFailed(Error::DatabaseError(e)),
                    Ok(()) => match f_result {
                        Ok(t) => match finish_outcome {
                            Ok(()) => r == TransactionOutcome::<T, E>::Committed(t),
                            Err(e2) => r == TransactionOutcome::<T, E>::CommitFailed(
                                Error::DatabaseError(e2),
                            ),
                        },
                        Err(fe) => match finish_outcome {
                            Ok(()) => r == TransactionOutcome::<T, E>::RolledBack(fe),
                            Err(e2) => r == (TransactionOutcome::<T, E>::RollbackFailed {
                                closure_error: fe,
                                rollback_error: Error::DatabaseError(e2),
                            }),
                        },
                    },
                }
            },
    {
        let ghost pre_log = self.sql_log@;
        if self.transaction_manager.transaction_depth != 0 {
            proof {
                assert(log_view(pre_log) + Seq::<Seq<char>>::empty() =~= log_view(pre_log));
            }
            return TransactionOutcome::BeginFailed(Error::AlreadyInTransaction);
        }
        self.sql_log.push(sql.to_owned());
        proof {
            assert(log_view(self.sql_log@) =~= log_view(pre_log).push(sql@));
        }
        let began = self.transaction_manager.begin_transaction_sql(begin_outcome);
        if let Err(e) = began {
            proof {
                assert(log_view(pre_log).push(sql@) =~= log_view(pre_log) + seq![sql@]);
            }
            return TransactionOutcome::BeginFailed(e);
        }
        match f_result {
            Ok(t) => {
                let finish_sql = match self.transaction_manager.commit_sql_text() {
                    Ok(s) => s,
                    Err(_) => {
                        proof {
                            assert(false);
                        }
                        String::new()
                    },
                };
                let ghost finish_text = finish_sql@;
                self.sql_log.push(finish_sql);
                let fin = self.transaction_manager.commit_transaction(finish_outcome);
                proof {
                    assert(log_view(self.sql_log@) =~= log_view(pre_log) + seq![sql@, finish_text]);
                }
                match fin {
                    Ok(()) => TransactionOutcome::Committed(t),
                    Err(e) => TransactionOutcome::CommitFailed(e),
                }
            },
            Err(fe) => {
                let finish_sql = match self.transaction_manager.rollback_sql_text() {
                    Ok(s) => s,
                    Err(_) => {
                        proof {
                            assert(false);
                        }
                        String::new()
                    },
                };
                let ghost finish_text = finish_sql@;
                self.sql_log.push(finish_sql);
                let fin = self.transaction_manager.rollback_transaction(finish_outcome);
                proof {
                    assert(log_view(self.sql_log@) =~= log_view(pre_log) + seq![sql@, finish_text]);
                }
                match fin {
                    Ok(()) => TransactionOutcome::RolledBack(fe),
                    Err(e) => TransactionOutcome::RollbackFailed {
                        closure_error: fe,
                        rollback_error: e,
                    },
                }
            },
        }
    }

    /// Runs a transaction opened with `BEGIN IMMEDIATE`, acquiring the write
    /// lock up front; it is an error when a transaction is already open.
    pub fn immediate_transaction<T, E>(
        &mut self,
        begin_outcome: Result<(), EngineError>,
        f_result: Result<T, E>,
        finish_outcome: Result<(), EngineError>,
    ) -> (r: TransactionOutcome<T, E>)
        ensures
            final(self).readonly_tx == old(self).readonly_tx,
            final(self).statement_cache == old(self).statement_cache,
            old(self).transaction_manager.transaction_depth > 0 ==> *final(self) == *old(self) && r
                == TransactionOutcome::<T, E>::BeginFailed(Error::AlreadyInTransaction),
            log_view(final(self).sql_log@) == log_view(old(self).sql_log@) + tx_sql_log_delta(
                old(self).transaction_manager.transaction_depth as nat,
                "BEGIN IMMEDIATE"@,
                begin_outcome is Ok,
                f_result is Ok,
            ),
            old(self).transaction_manager.transaction_depth == 0 ==> {
                &&& final(self).transaction_manager.transaction_depth as nat == tx_depth_after(
                    0,
                    begin_outcome is Ok,
                    finish_outcome is Ok,
                )
                &&& (begin_outcome is Ok && f_result is Ok && finish_outcome is Ok ==> r
                    == TransactionOutcome::<T, E>::Committed(f_result->Ok_0))
                &&& (begin_outcome is Ok && f_result is Err && finish_outcome is Ok ==> r
                    == TransactionOutcome::<T, E>::RolledBack(f_result->Err_0))
            },
    {
        self.transaction_sql("BEGIN IMMEDIATE", begin_outcome, f_result, finish_outcome)
    }

    /// Runs a transaction opened with `BEGIN EXCLUSIVE`, locking out readers
    /// too; it is an error when a transaction is already open.
    pub fn exclusive_transaction<T, E>(
        &mut self,
        begin_outcome: Result<(), EngineError>,
        f_result: Result<T, E>,
        finish_outcome: Result<(), EngineError>,
    ) -> (r: TransactionOutcome<T, E>)
        ensures
            final(self).readonly_tx == old(self).readonly_tx,
            final(self).statement_cache == old(self).statement_cache,
            old(self).transaction_manager.transaction_depth > 0 ==> *final(self) == *old(self) && r
                == TransactionOutcome::<T, E>::BeginFailed(Error::AlreadyInTransaction),
            log_view(final(self).sql_log@) == log_view(old(self).sql_log@) + tx_sql_log_delta(
                old(self).transaction_manager.transaction_depth as nat,
                "BEGIN EXCLUSIVE"@,
                begin_outcome is Ok,
                f_result is Ok,
            ),
            old(self).transaction_manager.transaction_depth == 0 ==> {
                &&& final(self).transaction_manager.transaction_depth as nat == tx_depth_after(
                    0,
                    begin_outcome is Ok,
                    finish_outcome is Ok,
                )
                &&& (begin_outcome is Ok && f_result is Ok && finish_outcome is Ok ==> r
                    == TransactionOutcome::<T, E>::Committed(f_result->Ok_0))
                &&& (begin_outcome is Ok && f_result is Err && finish_outcome is Ok ==> r
                    == TransactionOutcome::<T, E>::RolledBack(f_result->Err_0))
            },
    {
        self.transaction_sql("BEGIN EXCLUSIVE", begin_outcome, f_result, finish_outcome)
    }
}

/// A transaction helper whose statements the engine accepts settles the
/// depth back to its pre-call value on both closure outcomes, and the last
/// statement it issued is `COMMIT` when the closure succeeded and `ROLLBACK`
/// when it failed.
pub proof fn lemma_transaction_settles(depth: nat, begin_sql: Seq<char>, f_ok: bool)
    ensures
        tx_depth_after(depth, true, true) == depth,
        !f_ok ==> tx_log_delta(depth, begin_sql, true, false).last() == rollback_sql_spec(
            depth + 1,
        ),
        f_ok ==> tx_log_delta(depth, begin_sql, true, true).last() == commit_sql_spec(depth + 1),
{
}

/// While a transaction is open, a helper that must open with its own `BEGIN`
/// variant issues no statement at all, whatever the engine or the closure
/// would have answered.
pub proof fn lemma_open_transaction_blocks_begin(
    depth: nat,
    begin_sql: Seq<char>,
    begin_ok: bool,
    f_ok: bool,
)
    ensures
        depth >= 1 ==> tx_sql_log_delta(depth, begin_sql, begin_ok, f_ok) == Seq::<
            Seq<char>,
        >::empty(),
{
}

} // verus!
