use sqlite_core::bind_collector::{resolve_binds, IsNull, RawBytesBindCollector, SqliteType};
use sqlite_core::connection::SqliteConnection;
use sqlite_core::error::Error;
use sqlite_core::query_fragment::{BindParam, BindSource, QueryFragment, SqlPart};
use sqlite_core::statement_cache::MaybeCached;

fn bind_part(name: &str, value: BindSource) -> SqlPart {
    SqlPart::Bind(BindParam {
        column_name: name.to_string(),
        metadata: SqliteType::Integer,
        value,
    })
}

#[test]
fn resolution_binds_null_at_flagged_positions_in_column_order() {
    // Five named columns, two of them omitted: NULL lands exactly at the
    // flagged positions and the three present values keep their order.
    let flags = vec![
        ("a".to_string(), SqliteType::Integer, false),
        ("b".to_string(), SqliteType::Text, true),
        ("c".to_string(), SqliteType::Integer, false),
        ("d".to_string(), SqliteType::Double, true),
        ("e".to_string(), SqliteType::Integer, false),
    ];
    let metadata = vec![SqliteType::Integer, SqliteType::Integer, SqliteType::Integer];
    let binds = vec![Some(vec![1]), Some(vec![2]), Some(vec![3])];
    let resolved = resolve_binds(flags, metadata, binds);
    assert_eq!(
        vec![
            (SqliteType::Integer, Some(vec![1])),
            (SqliteType::Text, None),
            (SqliteType::Integer, Some(vec![2])),
            (SqliteType::Double, None),
            (SqliteType::Integer, Some(vec![3])),
        ],
        resolved
    );
}

#[test]
fn changing_how_many_are_flagged_keeps_present_values_in_order() {
    let metadata = vec![SqliteType::Integer, SqliteType::Integer];
    let binds = vec![Some(vec![7]), Some(vec![8])];
    let few_flags = vec![
        ("a".to_string(), SqliteType::Integer, false),
        ("b".to_string(), SqliteType::Integer, false),
    ];
    let many_flags = vec![
        ("a".to_string(), SqliteType::Text, true),
        ("b".to_string(), SqliteType::Integer, false),
        ("c".to_string(), SqliteType::Text, true),
        ("d".to_string(), SqliteType::Integer, false),
        ("e".to_string(), SqliteType::Text, true),
    ];
    let few = resolve_binds(few_flags, metadata.clone(), binds.clone());
    let many = resolve_binds(many_flags, metadata, binds);
    let present_few: Vec<_> = few.into_iter().filter(|p| p.1.is_some()).collect();
    let present_many: Vec<_> = many.into_iter().filter(|p| p.1.is_some()).collect();
    assert_eq!(present_few, present_many);
}

#[test]
fn push_bound_value_keeps_parallel_sequences_aligned() {
    let mut collector = RawBytesBindCollector::new();
    collector
        .push_bound_value(Ok((vec![1, 2], IsNull::No)), SqliteType::Binary)
        .unwrap();
    collector
        .push_bound_value(Ok((vec![], IsNull::Yes)), SqliteType::Text)
        .unwrap();
    let failed = collector.push_bound_value(Err("cannot serialize".to_string()), SqliteType::Text);
    assert_eq!(
        Err(Error::SerializationError("cannot serialize".to_string())),
        failed
    );
    // The failed push changed nothing.
    assert_eq!(vec![SqliteType::Binary, SqliteType::Text], collector.metadata);
    assert_eq!(vec![Some(vec![1, 2]), None], collector.binds);
    assert!(collector.value_is_none.is_empty());
}

#[test]
fn serialization_failure_mid_bind_applies_no_values() {
    // Three parameters; serializing the second fails: the statement is never
    // handed out, so zero bound values were applied, and the error wraps the
    // original cause.
    let mut connection = SqliteConnection::establish(":memory:", Ok(())).unwrap();
    let query = QueryFragment {
        parts: vec![
            SqlPart::Sql("INSERT INTO t VALUES (".to_string()),
            bind_part("a", BindSource::Supplied(Ok((vec![1], IsNull::No)))),
            SqlPart::Sql(", ".to_string()),
            bind_part("b", BindSource::Supplied(Err("utf8 conversion failed".to_string()))),
            SqlPart::Sql(", ".to_string()),
            bind_part("c", BindSource::Supplied(Ok((vec![3], IsNull::No)))),
            SqlPart::Sql(")".to_string()),
        ],
    };
    let r = connection.prepare_query(query, Ok(()));
    assert_eq!(
        Err(Error::SerializationError("utf8 conversion failed".to_string())),
        r
    );
    // The compiled statement stayed in the cache, still with nothing bound.
    assert_eq!(1, connection.statement_cache.len());
    assert!(connection.statement_cache.entries[0].1.binds.is_empty());
}

#[test]
fn omitted_insert_values_become_null_binds() {
    let mut connection = SqliteConnection::establish(":memory:", Ok(())).unwrap();
    let query = QueryFragment {
        parts: vec![
            SqlPart::Sql("INSERT INTO t (a, b) VALUES (".to_string()),
            bind_part("a", BindSource::Supplied(Ok((vec![9], IsNull::No)))),
            SqlPart::Sql(", ".to_string()),
            bind_part("b", BindSource::Omitted),
            SqlPart::Sql(")".to_string()),
        ],
    };
    let r = connection.prepare_query(query, Ok(())).unwrap();
    let statement = match r {
        MaybeCached::Cached(s) => s,
        MaybeCached::CannotCache(s) => s,
    };
    assert_eq!(
        vec![
            (SqliteType::Integer, Some(vec![9])),
            (SqliteType::Integer, None),
        ],
        statement.binds
    );
}
