use sqlite_core::bind_collector::{IsNull, SqliteType};
use sqlite_core::connection::SqliteConnection;
use sqlite_core::query_fragment::{BindParam, BindSource, InListParam, QueryFragment, SqlPart};
use sqlite_core::statement::StepOutcome;

fn open_memory() -> SqliteConnection {
    SqliteConnection::establish(":memory:", Ok(())).unwrap()
}

fn int_bytes(n: i32) -> Vec<u8> {
    n.to_be_bytes().to_vec()
}

/// `SELECT ?` with the integer 1 bound: a fixed-shape query.
fn select_one() -> QueryFragment {
    QueryFragment {
        parts: vec![
            SqlPart::Sql("SELECT ".to_string()),
            SqlPart::Bind(BindParam {
                column_name: String::new(),
                metadata: SqliteType::Integer,
                value: BindSource::Supplied(Ok((int_bytes(1), IsNull::No))),
            }),
        ],
    }
}

fn one_row_then_done() -> Vec<StepOutcome> {
    vec![StepOutcome::Row(vec![Some(int_bytes(1))]), StepOutcome::Done]
}

#[test]
fn prepared_statements_are_cached_when_run() {
    let mut connection = open_memory();
    assert_eq!(
        Ok(vec![vec![Some(int_bytes(1))]]),
        connection.query_by_index(select_one(), Ok(()), one_row_then_done())
    );
    assert_eq!(
        Ok(vec![vec![Some(int_bytes(1))]]),
        connection.query_by_index(select_one(), Ok(()), one_row_then_done())
    );
    assert_eq!(1, connection.statement_cache.len());
}

#[test]
fn sql_literal_nodes_are_not_cached() {
    let mut connection = open_memory();
    let query = QueryFragment {
        parts: vec![
            SqlPart::Sql("SELECT ".to_string()),
            SqlPart::Literal("1".to_string()),
        ],
    };
    assert_eq!(
        Ok(vec![vec![Some(int_bytes(1))]]),
        connection.query_by_index(query, Ok(()), one_row_then_done())
    );
    assert_eq!(0, connection.statement_cache.len());
}

#[test]
fn queries_containing_sql_literal_nodes_are_not_cached() {
    let mut connection = open_memory();
    let query = QueryFragment {
        parts: vec![
            SqlPart::Sql("SELECT ".to_string()),
            SqlPart::Bind(BindParam {
                column_name: String::new(),
                metadata: SqliteType::Integer,
                value: BindSource::Supplied(Ok((int_bytes(1), IsNull::No))),
            }),
            SqlPart::Sql(" = ".to_string()),
            SqlPart::Literal("1".to_string()),
        ],
    };
    let steps = vec![StepOutcome::Row(vec![Some(vec![1])]), StepOutcome::Done];
    assert_eq!(
        Ok(vec![vec![Some(vec![1])]]),
        connection.query_by_index(query, Ok(()), steps)
    );
    assert_eq!(0, connection.statement_cache.len());
}

#[test]
fn queries_containing_in_with_vec_are_not_cached() {
    let mut connection = open_memory();
    let query = QueryFragment {
        parts: vec![
            SqlPart::Sql("SELECT ".to_string()),
            SqlPart::Bind(BindParam {
                column_name: String::new(),
                metadata: SqliteType::Integer,
                value: BindSource::Supplied(Ok((int_bytes(1), IsNull::No))),
            }),
            SqlPart::Sql(" IN (".to_string()),
            SqlPart::InList(InListParam {
                column_name: String::new(),
                metadata: SqliteType::Integer,
                values: vec![
                    Ok((int_bytes(1), IsNull::No)),
                    Ok((int_bytes(2), IsNull::No)),
                    Ok((int_bytes(3), IsNull::No)),
                ],
            }),
            SqlPart::Sql(")".to_string()),
        ],
    };
    let steps = vec![StepOutcome::Row(vec![Some(vec![1])]), StepOutcome::Done];
    assert_eq!(
        Ok(vec![vec![Some(vec![1])]]),
        connection.query_by_index(query, Ok(()), steps)
    );
    assert_eq!(0, connection.statement_cache.len());
}

#[test]
fn queries_containing_in_with_subselect_are_cached() {
    let mut connection = open_memory();
    let query = QueryFragment {
        parts: vec![
            SqlPart::Sql("SELECT ".to_string()),
            SqlPart::Bind(BindParam {
                column_name: String::new(),
                metadata: SqliteType::Integer,
                value: BindSource::Supplied(Ok((int_bytes(1), IsNull::No))),
            }),
            SqlPart::Sql(" IN ".to_string()),
            SqlPart::Subselect("SELECT ?".to_string()),
        ],
    };
    let steps = vec![StepOutcome::Row(vec![Some(vec![1])]), StepOutcome::Done];
    assert_eq!(
        Ok(vec![vec![Some(vec![1])]]),
        connection.query_by_index(query, Ok(()), steps)
    );
    assert_eq!(1, connection.statement_cache.len());
}

#[test]
fn rendered_sql_places_one_placeholder_per_value() {
    let query = QueryFragment {
        parts: vec![
            SqlPart::Sql("SELECT x WHERE x IN (".to_string()),
            SqlPart::InList(InListParam {
                column_name: String::new(),
                metadata: SqliteType::Integer,
                values: vec![
                    Ok((int_bytes(1), IsNull::No)),
                    Ok((int_bytes(2), IsNull::No)),
                    Ok((int_bytes(3), IsNull::No)),
                ],
            }),
            SqlPart::Sql(")".to_string()),
            SqlPart::Sql(" AND y = ".to_string()),
            SqlPart::Bind(BindParam {
                column_name: String::new(),
                metadata: SqliteType::Integer,
                value: BindSource::Supplied(Ok((int_bytes(4), IsNull::No))),
            }),
            SqlPart::Sql(" AND z IN ".to_string()),
            SqlPart::Subselect("SELECT 1".to_string()),
        ],
    };
    assert_eq!(
        "SELECT x WHERE x IN (?, ?, ?) AND y = ? AND z IN (SELECT 1)",
        query.to_sql()
    );
}

#[test]
fn cache_misses_are_prepared_once_and_logged() {
    let mut connection = open_memory();
    let _ = connection.query_by_index(select_one(), Ok(()), one_row_then_done());
    let _ = connection.query_by_index(select_one(), Ok(()), one_row_then_done());
    // Only the miss hands the SQL to the engine for compilation.
    assert_eq!(vec!["SELECT ?".to_string()], connection.sql_log);
}

#[test]
fn failed_preparation_is_not_cached() {
    let mut connection = open_memory();
    let boom = sqlite_core::error::EngineError {
        code: 1,
        message: "near \"SELEC\": syntax error".to_string(),
    };
    let r = connection.query_by_index(select_one(), Err(boom.clone()), one_row_then_done());
    assert_eq!(Err(sqlite_core::error::Error::DatabaseError(boom)), r);
    assert_eq!(0, connection.statement_cache.len());
}
