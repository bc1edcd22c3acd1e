use std::sync::Arc;

use db_client::db::postgres::{self, SimpleMessage, DEFAULT_PORT};
use db_client::db::sqlite::{self, SqliteValue};
use db_client::db::{browse_table_query, paged_query, DbDriver, DbError, MockDriver};

#[test]
fn paged_queries_wrap_the_user_query() {
    assert_eq!(
        postgres::paged_query_sql("SELECT * FROM t ORDER BY id", 2000, 1000),
        "SELECT * FROM (SELECT * FROM t ORDER BY id) AS _paged_q LIMIT 1000 OFFSET 2000"
    );
    assert_eq!(
        sqlite::paged_query_sql("SELECT 1", 0, 1000),
        "SELECT * FROM (SELECT 1) AS _q LIMIT 1000 OFFSET 0"
    );
    assert_eq!(paged_query("q", "a", 7, 3), "SELECT * FROM (q) AS a LIMIT 3 OFFSET 7");
}

#[test]
fn browse_query_quotes_the_table() {
    assert_eq!(browse_table_query("users"), "SELECT * FROM \"users\"");
    assert_eq!(browse_table_query("sales.orders"), "SELECT * FROM \"sales.orders\"");
}

#[test]
fn mock_driver_answers() {
    let d = MockDriver;
    assert_eq!(d.get_tables().unwrap(), vec!["mock_orders", "mock_products", "mock_users"]);
    let t = d.execute_query("anything").unwrap();
    assert_eq!(t.columns, vec!["id", "name", "status"]);
    assert_eq!(t.column_types, vec!["int4", "text", "text"]);
    assert_eq!(t.rows.len(), 3);
    assert_eq!(t.rows[2], vec![Some("3".to_string()), None, Some("active".to_string())]);
    let p = d.execute_query_paged("anything", 0, 10).unwrap();
    assert!(p.columns.is_empty() && p.column_types.is_empty() && p.rows.is_empty());
}

#[test]
fn db_error_message() {
    let e = DbError("connection refused".to_string());
    assert_eq!(e.message(), "connection refused");
}

#[test]
fn connect_params_from_the_form() {
    let p = postgres::connect_params("localhost", "6543", "alice", "s3cret", "shop");
    assert_eq!(p.host, "localhost");
    assert_eq!(p.port, 6543);
    assert_eq!(p.user, "alice");
    assert_eq!(p.dbname, "shop");
    assert_eq!(p.password.as_deref(), Some("s3cret"));
}

#[test]
fn bad_port_falls_back_to_default_and_empty_password_is_omitted() {
    let p = postgres::connect_params("h", "not a port", "u", "", "d");
    assert_eq!(p.port, DEFAULT_PORT);
    assert_eq!(p.port, 5432);
    assert_eq!(p.password, None);
    let p = postgres::connect_params("h", "70000", "u", " ", "d");
    assert_eq!(p.port, 5432);
    assert_eq!(p.password.as_deref(), Some(" "));
}

#[test]
fn table_names_hide_the_public_schema() {
    assert_eq!(postgres::qualified_table_name("public".into(), "users".into()), "users");
    assert_eq!(postgres::qualified_table_name("sales".into(), "orders".into()), "sales.orders");
    let names = postgres::table_names(vec![
        ("public".into(), "a".into()),
        ("audit".into(), "log".into()),
        ("Public".into(), "b".into()),
    ]);
    assert_eq!(names, vec!["a", "audit.log", "Public.b"]);
    assert!(postgres::table_names(vec![]).is_empty());
}

#[test]
fn simple_query_rows_are_collected() {
    let d = postgres::table_data(
        vec!["id".into(), "name".into()],
        vec!["int4".into(), "text".into()],
        vec![
            SimpleMessage::Other,
            SimpleMessage::Row(vec![Some("1".into()), None]),
            SimpleMessage::Row(vec![Some("2".into()), Some("x".into()), Some("extra".into())]),
            SimpleMessage::Other,
        ],
    );
    assert_eq!(d.columns, vec!["id", "name"]);
    assert_eq!(d.column_types, vec!["int4", "text"]);
    assert_eq!(
        *d.rows,
        vec![vec![Some("1".to_string()), None], vec![Some("2".to_string()), Some("x".to_string())]]
    );
}

#[test]
fn sqlite_values_are_shown_as_text() {
    assert_eq!(sqlite::cell_text(SqliteValue::Null), None);
    assert_eq!(sqlite::cell_text(SqliteValue::Integer(42)).as_deref(), Some("42"));
    assert_eq!(sqlite::cell_text(SqliteValue::Integer(-7)).as_deref(), Some("-7"));
    assert_eq!(
        sqlite::cell_text(SqliteValue::Integer(i64::MIN)).as_deref(),
        Some("-9223372036854775808")
    );
    assert_eq!(sqlite::cell_text(SqliteValue::Real("9.9900".into())).as_deref(), Some("9.9900"));
    assert_eq!(sqlite::cell_text(SqliteValue::Text("Alice".into())).as_deref(), Some("Alice"));
    assert_eq!(sqlite::cell_text(SqliteValue::Blob(vec![1, 2, 3])).as_deref(), Some("<blob 3 bytes>"));
    assert_eq!(sqlite::cell_text(SqliteValue::Blob(vec![])).as_deref(), Some("<blob 0 bytes>"));
}

#[test]
fn sqlite_rows_become_a_result() {
    let d = sqlite::table_data(
        vec!["id".into(), "name".into(), "price".into()],
        vec![Some("INTEGER".into()), Some("TEXT".into()), None],
        vec![
            vec![SqliteValue::Integer(1), SqliteValue::Text("Widget".into()), SqliteValue::Real("9.9900".into())],
            vec![SqliteValue::Integer(2), SqliteValue::Null, SqliteValue::Blob(vec![0; 16])],
        ],
    );
    assert_eq!(d.columns, vec!["id", "name", "price"]);
    assert_eq!(d.column_types, vec!["INTEGER", "TEXT", ""]);
    assert_eq!(
        *d.rows,
        vec![
            vec![Some("1".to_string()), Some("Widget".to_string()), Some("9.9900".to_string())],
            vec![Some("2".to_string()), None, Some("<blob 16 bytes>".to_string())],
        ]
    );
    let empty = sqlite::table_data(vec![], vec![], vec![]);
    assert!(empty.columns.is_empty() && empty.rows.is_empty());
    let _ = Arc::strong_count(&empty.rows);
}

#[test]
fn seed_and_listing_queries() {
    assert!(sqlite::SEED_SQL.contains("CREATE TABLE IF NOT EXISTS users"));
    assert!(sqlite::TABLES_QUERY.starts_with("SELECT name FROM sqlite_master"));
    assert!(postgres::TABLES_QUERY.contains("information_schema.tables"));
}
