use sqlite_core::connection::{is_readonly_tx, SqliteConnection, TransactionOutcome};
use sqlite_core::error::{EngineError, Error};
use sqlite_core::statement::StepOutcome;

fn open_memory() -> SqliteConnection {
    SqliteConnection::establish(":memory:", Ok(())).unwrap()
}

fn engine_error(code: i32, message: &str) -> EngineError {
    EngineError { code, message: message.to_string() }
}

#[test]
fn successful_transaction_commits_and_restores_depth() {
    let mut connection = open_memory();
    let r = connection.transaction::<i32, Error>(Ok(()), Ok(42), Ok(()));
    assert_eq!(TransactionOutcome::Committed(42), r);
    assert_eq!(0, connection.transaction_manager.transaction_depth);
    assert_eq!(vec!["BEGIN".to_string(), "COMMIT".to_string()], connection.sql_log);
    assert!(!is_readonly_tx(&connection));
}

#[test]
fn failed_transaction_rolls_back_and_restores_depth() {
    let mut connection = open_memory();
    let r = connection.transaction::<i32, Error>(Ok(()), Err(Error::NotInTransaction), Ok(()));
    assert_eq!(TransactionOutcome::RolledBack(Error::NotInTransaction), r);
    assert_eq!(0, connection.transaction_manager.transaction_depth);
    assert_eq!(vec!["BEGIN".to_string(), "ROLLBACK".to_string()], connection.sql_log);
    assert!(!is_readonly_tx(&connection));
}

#[test]
fn immediate_transaction_fails_while_transaction_open() {
    let mut connection = open_memory();
    connection
        .transaction_manager
        .begin_transaction(Ok(()))
        .unwrap();
    let r = connection.immediate_transaction::<i32, Error>(Ok(()), Ok(1), Ok(()));
    assert_eq!(TransactionOutcome::BeginFailed(Error::AlreadyInTransaction), r);
    // No second BEGIN was handed to the engine.
    assert!(connection.sql_log.is_empty());
    assert_eq!(1, connection.transaction_manager.transaction_depth);
}

#[test]
fn immediate_transaction_issues_its_begin_variant() {
    let mut connection = open_memory();
    let r = connection.immediate_transaction::<i32, Error>(Ok(()), Ok(5), Ok(()));
    assert_eq!(TransactionOutcome::Committed(5), r);
    assert_eq!(
        vec!["BEGIN IMMEDIATE".to_string(), "COMMIT".to_string()],
        connection.sql_log
    );
}

#[test]
fn exclusive_transaction_issues_its_begin_variant() {
    let mut connection = open_memory();
    let r = connection.exclusive_transaction::<i32, Error>(Ok(()), Ok(5), Ok(()));
    assert_eq!(TransactionOutcome::Committed(5), r);
    assert_eq!(
        vec!["BEGIN EXCLUSIVE".to_string(), "COMMIT".to_string()],
        connection.sql_log
    );
}

#[test]
fn nested_transactions_use_savepoints() {
    let mut connection = open_memory();
    connection
        .transaction_manager
        .begin_transaction(Ok(()))
        .unwrap();
    let r = connection.transaction::<i32, Error>(Ok(()), Err(Error::NotInTransaction), Ok(()));
    assert_eq!(TransactionOutcome::RolledBack(Error::NotInTransaction), r);
    assert_eq!(
        vec![
            "SAVEPOINT diesel_savepoint_1".to_string(),
            "ROLLBACK TO SAVEPOINT diesel_savepoint_1".to_string(),
        ],
        connection.sql_log
    );
    assert_eq!(1, connection.transaction_manager.transaction_depth);
}

#[test]
fn rollback_failure_surfaces_both_errors() {
    let mut connection = open_memory();
    let busy = engine_error(5, "database is locked");
    let r = connection.transaction::<i32, Error>(
        Ok(()),
        Err(Error::NotInTransaction),
        Err(busy.clone()),
    );
    assert_eq!(
        TransactionOutcome::RollbackFailed {
            closure_error: Error::NotInTransaction,
            rollback_error: Error::DatabaseError(busy),
        },
        r
    );
    // The failed rollback leaves the transaction open.
    assert_eq!(1, connection.transaction_manager.transaction_depth);
}

#[test]
fn commit_outside_transaction_is_a_state_error() {
    let mut connection = open_memory();
    assert_eq!(
        Err(Error::NotInTransaction),
        connection.transaction_manager.commit_transaction(Ok(()))
    );
    assert_eq!(
        Err(Error::NotInTransaction),
        connection.transaction_manager.rollback_transaction(Ok(()))
    );
}

#[test]
fn failed_begin_leaves_depth_unchanged() {
    let mut connection = open_memory();
    let busy = engine_error(5, "database is locked");
    let r = connection.transaction::<i32, Error>(Err(busy.clone()), Ok(1), Ok(()));
    assert_eq!(
        TransactionOutcome::BeginFailed(Error::DatabaseError(busy)),
        r
    );
    assert_eq!(0, connection.transaction_manager.transaction_depth);
    assert_eq!(vec!["BEGIN".to_string()], connection.sql_log);
}

#[test]
fn execute_reports_rows_affected() {
    let mut connection = open_memory();
    let r = connection.execute("DELETE FROM t", Ok(3));
    assert_eq!(Ok(3), r);
    assert_eq!(3, connection.rows_affected_by_last_query());
    let boom = engine_error(1, "no such table: t");
    let r2 = connection.execute("DELETE FROM missing", Err(boom.clone()));
    assert_eq!(Err(Error::DatabaseError(boom)), r2);
    assert_eq!(3, connection.rows_affected_by_last_query());
}

#[test]
fn establish_failure_carries_the_engine_error() {
    let cantopen = engine_error(14, "unable to open database file");
    let r = SqliteConnection::establish("/no/such/dir/db.sqlite3", Err(cantopen.clone()));
    assert_eq!(
        Err(sqlite_core::error::ConnectionError::BadConnection(cantopen)),
        r
    );
}

#[test]
fn row_cursor_stops_at_engine_error() {
    let boom = engine_error(11, "database disk image is malformed");
    let outcomes = vec![
        StepOutcome::Row(vec![Some(vec![1])]),
        StepOutcome::Failed(boom.clone()),
        StepOutcome::Row(vec![Some(vec![2])]),
        StepOutcome::Done,
    ];
    assert_eq!(
        Err(Error::DatabaseError(boom)),
        sqlite_core::statement::collect_rows(outcomes)
    );
}

#[test]
fn registered_functions_are_recorded() {
    let mut connection = open_memory();
    connection
        .register_sql_function("fun_case", true, Ok(()))
        .unwrap();
    connection
        .register_sql_function("add_counter", false, Ok(()))
        .unwrap();
    assert_eq!(
        vec![("fun_case".to_string(), true), ("add_counter".to_string(), false)],
        connection.registered_functions
    );
    let boom = engine_error(21, "bad parameter or other API misuse");
    assert_eq!(
        Err(Error::DatabaseError(boom.clone())),
        connection.register_sql_function("broken", true, Err(boom))
    );
    assert_eq!(2, connection.registered_functions.len());
}

#[test]
fn engine_error_codes_translate_to_their_fixed_text() {
    let e = EngineError::from_code(0);
    assert_eq!(0, e.code);
    assert_eq!("not an error", e.message);
}
