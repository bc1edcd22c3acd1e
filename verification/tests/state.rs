use std::sync::Arc;

use db_client::connections::{ConnectionStore, SavedConnection};
use db_client::db::DbError;
use db_client::sample::{sample_data, SAMPLE_ROWS};
use db_client::state::{
    AppState, ChunkRequest, ConnectionStatus, PagedTableData, RunStart, TableData, CHUNK_SIZE, CONNECTION_THREAD_FAILED,
};
use db_client::ui::data_grid::footer_text;

fn conn(name: &str) -> SavedConnection {
    SavedConnection {
        name: name.to_string(),
        host: "localhost".to_string(),
        port: "5432".to_string(),
        user: "postgres".to_string(),
        database: "db".to_string(),
    }
}

fn rows(n: usize, start: usize) -> Vec<Vec<Option<String>>> {
    (start..start + n).map(|i| vec![Some(i.to_string())]).collect()
}

fn data(n: usize, start: usize) -> TableData {
    TableData { columns: vec!["id".into()], column_types: vec!["int4".into()], rows: Arc::new(rows(n, start)) }
}

fn connected() -> AppState<u32> {
    let mut s: AppState<u32> = AppState::new();
    let mut store = ConnectionStore::from_stored(None);
    assert!(s.begin_connecting());
    assert!(s.finish_connect(&mut store, conn("c"), Some(Ok((7, Ok(vec!["t".to_string()]))))));
    s
}

#[test]
fn new_state_is_disconnected_and_empty() {
    let s: AppState<u32> = AppState::new();
    assert_eq!(s.connection_status, ConnectionStatus::Disconnected);
    assert!(s.driver.is_none() && s.results.is_none() && s.tables.is_empty());
    assert!(!s.query_in_progress && !s.show_connection_form);
    assert!(s.query_error.is_none() && s.connection_error.is_none() && s.selected_conn_idx.is_none());
    assert!(s.sql_query.is_empty() && s.active_table.is_none());
}

#[test]
fn form_opening_and_selection() {
    let mut s: AppState<u32> = AppState::new();
    s.connection_error = Some("old".into());
    s.select_saved_connection(2);
    assert!(s.show_connection_form);
    assert_eq!(s.selected_conn_idx, Some(2));
    assert!(s.connection_error.is_none());
    s.open_connection_form();
    assert!(s.show_connection_form);
    assert_eq!(s.selected_conn_idx, None);
}

#[test]
fn connecting_twice_is_refused() {
    let mut s: AppState<u32> = AppState::new();
    s.connection_error = Some("old".into());
    assert!(s.begin_connecting());
    assert_eq!(s.connection_status, ConnectionStatus::Connecting);
    assert!(s.connection_error.is_none());
    assert!(!s.begin_connecting());
    assert_eq!(s.connection_status, ConnectionStatus::Connecting);
}

#[test]
fn test_connection_outcomes() {
    let mut s: AppState<u32> = AppState::new();
    s.begin_connecting();
    assert!(s.finish_test(Some(Ok(()))));
    assert_eq!(s.connection_status, ConnectionStatus::Disconnected);
    assert!(s.connection_error.is_none());
    s.begin_connecting();
    assert!(!s.finish_test(Some(Err("refused".into()))));
    assert_eq!(s.connection_error.as_deref(), Some("refused"));
    s.begin_connecting();
    assert!(!s.finish_test(None));
    assert_eq!(s.connection_error.as_deref(), Some(CONNECTION_THREAD_FAILED));
    assert_eq!(s.connection_error.as_deref(), Some("Connection thread failed"));
    assert!(s.driver.is_none());
}

#[test]
fn successful_connect_shows_tables_and_saves() {
    let mut s: AppState<u32> = AppState::new();
    let mut store = ConnectionStore::from_stored(None);
    s.show_connection_form = true;
    s.begin_connecting();
    let saved = s.finish_connect(&mut store, conn("prod"), Some(Ok((9, Ok(vec!["a".into(), "b".into()])))));
    assert!(saved);
    assert_eq!(s.connection_status, ConnectionStatus::Connected);
    assert_eq!(s.driver, Some(9));
    assert_eq!(s.tables, vec!["a", "b"]);
    assert!(!s.show_connection_form);
    assert_eq!(store.connections().len(), 1);
    assert_eq!(store.connections()[0].name, "prod");
}

#[test]
fn connect_with_failing_table_list() {
    let mut s: AppState<u32> = AppState::new();
    let mut store = ConnectionStore::from_stored(None);
    s.begin_connecting();
    let saved = s.finish_connect(&mut store, conn("x"), Some(Ok((1, Err(DbError("permission denied".into()))))));
    assert!(saved);
    assert_eq!(s.connection_status, ConnectionStatus::Connected);
    assert_eq!(s.query_error.as_deref(), Some("get_tables: permission denied"));
    assert!(s.tables.is_empty());
}

#[test]
fn failed_connect_outcomes() {
    let mut s: AppState<u32> = AppState::new();
    let mut store = ConnectionStore::from_stored(None);
    s.begin_connecting();
    assert!(!s.finish_connect(&mut store, conn("x"), Some(Err("no route".into()))));
    assert_eq!(s.connection_status, ConnectionStatus::Disconnected);
    assert_eq!(s.connection_error.as_deref(), Some("no route"));
    s.begin_connecting();
    assert!(!s.finish_connect(&mut store, conn("x"), None));
    assert_eq!(s.connection_error.as_deref(), Some("Connection thread failed"));
    assert!(store.connections().is_empty());
    assert!(s.driver.is_none());
}

#[test]
fn save_updates_the_selected_or_upserts() {
    let mut s: AppState<u32> = AppState::new();
    let mut store = ConnectionStore::from_stored(Some(vec![conn("a"), conn("b")]));
    s.save_connection(&mut store, conn("c"));
    assert_eq!(store.connections().len(), 3);
    s.select_saved_connection(0);
    s.save_connection(&mut store, conn("renamed"));
    assert_eq!(store.connections()[0].name, "renamed");
    assert_eq!(store.connections().len(), 3);
}

#[test]
fn deleting_the_selected_connection_closes_the_form() {
    let mut s: AppState<u32> = AppState::new();
    let mut store = ConnectionStore::from_stored(Some(vec![conn("a"), conn("b"), conn("c")]));
    s.select_saved_connection(1);
    s.delete_saved_connection(&mut store, 0);
    assert_eq!(store.connections().len(), 2);
    assert_eq!(s.selected_conn_idx, Some(1));
    assert!(s.show_connection_form);
    s.delete_saved_connection(&mut store, 1);
    assert_eq!(store.connections().len(), 1);
    assert_eq!(s.selected_conn_idx, None);
    assert!(!s.show_connection_form);
}

#[test]
fn picking_a_table_shows_its_first_page() {
    let mut s = connected();
    s.query_error = Some("stale".into());
    s.show_table("users".into(), Some(data(3, 0)));
    let r = s.results.as_ref().unwrap();
    assert_eq!(r.query, "SELECT * FROM \"users\"");
    assert_eq!(r.rows.len(), 3);
    assert_eq!(r.chunk_size, CHUNK_SIZE);
    assert!(r.all_loaded && !r.loading_next);
    assert!(s.query_error.is_none());
    assert_eq!(s.active_table.as_deref(), Some("users"));
    s.show_table("other".into(), None);
    assert_eq!(s.active_table.as_deref(), Some("other"));
    assert_eq!(s.results.as_ref().unwrap().query, "SELECT * FROM \"users\"");
}

#[test]
fn running_a_query() {
    let mut s = connected();
    s.query_error = Some("old".into());
    match s.start_run("  SELECT * FROM t \n") {
        RunStart::Started(q) => assert_eq!(q, "SELECT * FROM t"),
        _ => panic!("query should start"),
    }
    assert!(s.query_in_progress);
    assert!(s.query_error.is_none());
    assert!(matches!(s.start_run("SELECT 2"), RunStart::Ignored));
    s.finish_run("SELECT * FROM t".into(), Some(Ok(data(CHUNK_SIZE, 0))));
    assert!(!s.query_in_progress);
    let r = s.results.as_ref().unwrap();
    assert_eq!(r.query, "SELECT * FROM t");
    assert_eq!(r.rows.len(), CHUNK_SIZE);
    assert!(!r.all_loaded);
}

#[test]
fn blank_queries_and_missing_connection_are_ignored() {
    let mut s = connected();
    assert!(matches!(s.start_run(" \t\n"), RunStart::Ignored));
    assert!(!s.query_in_progress);
    let mut d: AppState<u32> = AppState::new();
    assert!(matches!(d.start_run("SELECT 1"), RunStart::Ignored));
    assert!(!d.query_in_progress);
}

#[test]
fn failed_and_cancelled_queries() {
    let mut s = connected();
    s.show_table("t".into(), Some(data(2, 0)));
    s.start_run("SELECT bad");
    s.finish_run("SELECT bad".into(), Some(Err("syntax error".into())));
    assert_eq!(s.query_error.as_deref(), Some("syntax error"));
    assert!(s.results.is_none());
    assert!(!s.query_in_progress);
    s.start_run("SELECT slow");
    s.cancel_run();
    assert!(!s.query_in_progress);
    s.finish_run("SELECT slow".into(), None);
    assert!(!s.query_in_progress);
    assert!(s.results.is_none());
}

#[test]
fn sample_command_needs_no_connection() {
    let mut s: AppState<u32> = AppState::new();
    s.active_table = Some("t".into());
    assert!(matches!(s.start_run("  TEST 100K "), RunStart::Sample));
    assert!(!s.query_in_progress);
    assert!(s.active_table.is_none());
    let r = s.results.as_ref().unwrap();
    assert_eq!(r.rows.len(), 100_000);
    assert!(r.all_loaded && !r.loading_next);
    assert!(r.query.is_empty());
}

#[test]
fn sample_data_rows() {
    let p = sample_data();
    assert_eq!(p.columns, vec!["id", "name", "value", "status", "created_at"]);
    assert_eq!(p.column_types, vec!["int8", "text", "float8", "text", "date"]);
    assert_eq!(p.rows.len() as u64, SAMPLE_ROWS);
    assert_eq!(p.chunk_size, CHUNK_SIZE);
    assert_eq!(
        p.rows[0],
        vec![
            Some("0".to_string()),
            None,
            Some("0.0000".to_string()),
            Some("active".to_string()),
            Some("2024-01-01".to_string())
        ]
    );
    assert_eq!(
        p.rows[1],
        vec![
            Some("1".to_string()),
            Some("Item 1".to_string()),
            Some("1.3370".to_string()),
            Some("inactive".to_string()),
            Some("2024-02-02".to_string())
        ]
    );
    for (i, row) in p.rows.iter().enumerate() {
        let i = i as u64;
        assert_eq!(row[0].as_deref(), Some(i.to_string().as_str()));
        let name = if i % 50 == 0 { None } else { Some(format!("Item {i}")) };
        assert_eq!(row[1], name);
        assert_eq!(row[2], Some(format!("{:.4}", i as f64 * 1.337)));
        let status = if i % 3 == 0 { "active" } else { "inactive" };
        assert_eq!(row[3].as_deref(), Some(status));
        assert_eq!(row[4], Some(format!("2024-{:02}-{:02}", (i % 12) + 1, (i % 28) + 1)));
    }
}

#[test]
fn lazy_loading_appends_pages() {
    let mut s = connected();
    s.start_run("SELECT * FROM big");
    s.finish_run("SELECT * FROM big".into(), Some(Ok(data(CHUNK_SIZE, 0))));
    assert!(s.results.as_ref().unwrap().wants_next_chunk());
    let req = s.begin_next_chunk().unwrap();
    assert_eq!(req.query, "SELECT * FROM big");
    assert_eq!(req.offset, CHUNK_SIZE);
    assert_eq!(req.limit, CHUNK_SIZE);
    // While a page is loading, no further page is asked for.
    assert!(!s.results.as_ref().unwrap().wants_next_chunk());
    s.finish_next_chunk(&req, Some(Ok(data(CHUNK_SIZE, CHUNK_SIZE))));
    let r = s.results.as_ref().unwrap();
    assert_eq!(*r.rows, rows(2 * CHUNK_SIZE, 0));
    assert!(!r.all_loaded && !r.loading_next);
    let req = s.begin_next_chunk().unwrap();
    assert_eq!(req.offset, 2 * CHUNK_SIZE);
    s.finish_next_chunk(&req, Some(Ok(data(10, 2 * CHUNK_SIZE))));
    let r = s.results.as_ref().unwrap();
    assert_eq!(*r.rows, rows(2 * CHUNK_SIZE + 10, 0));
    assert!(r.all_loaded);
    assert!(!r.wants_next_chunk());
}

#[test]
fn failed_page_stops_loading() {
    let mut s = connected();
    s.show_table("t".into(), Some(data(CHUNK_SIZE, 0)));
    let req = s.begin_next_chunk().unwrap();
    s.finish_next_chunk(&req, Some(Err("gone".into())));
    let r = s.results.as_ref().unwrap();
    assert!(r.all_loaded && !r.loading_next);
    assert_eq!(r.rows.len(), CHUNK_SIZE);
    let mut s = connected();
    s.show_table("t".into(), Some(data(CHUNK_SIZE, 0)));
    let req = s.begin_next_chunk().unwrap();
    s.finish_next_chunk(&req, None);
    assert!(s.results.as_ref().unwrap().all_loaded);
}

#[test]
fn no_page_without_result_or_connection() {
    let mut s = connected();
    assert!(s.begin_next_chunk().is_none());
    let req = ChunkRequest { query: "q".into(), offset: 0, limit: CHUNK_SIZE };
    s.finish_next_chunk(&req, Some(Ok(data(3, 0))));
    assert!(s.results.is_none());
    let mut d: AppState<u32> = AppState::new();
    d.results = Some(PagedTableData::first_page(data(CHUNK_SIZE, 0), "q".into()));
    assert!(d.begin_next_chunk().is_none());
    let r = d.results.as_ref().unwrap();
    assert!(!r.loading_next);
    assert!(r.wants_next_chunk());
}

#[test]
fn a_late_page_for_another_result_is_dropped() {
    let mut s = connected();
    s.show_table("a".into(), Some(data(CHUNK_SIZE, 0)));
    let req = s.begin_next_chunk().unwrap();
    // The user picks another table before the page arrives.
    s.show_table("b".into(), Some(data(CHUNK_SIZE, 500)));
    s.finish_next_chunk(&req, Some(Ok(data(CHUNK_SIZE, CHUNK_SIZE))));
    let r = s.results.as_ref().unwrap();
    assert_eq!(r.query, "SELECT * FROM \"b\"");
    assert_eq!(*r.rows, rows(CHUNK_SIZE, 500));
    assert!(!r.all_loaded && !r.loading_next);
    s.finish_next_chunk(&req, Some(Err("late".into())));
    assert!(!s.results.as_ref().unwrap().all_loaded);
    // Same query, but the result was replaced by a fresh run: the offset no longer matches.
    let req = s.begin_next_chunk().unwrap();
    s.show_table("b".into(), Some(data(10, 0)));
    s.finish_next_chunk(&req, Some(Ok(data(CHUNK_SIZE, 0))));
    assert_eq!(s.results.as_ref().unwrap().rows.len(), 10);
}

#[test]
fn footer_lines() {
    assert_eq!(footer_text(1, false, true), "1 row");
    assert_eq!(footer_text(0, false, true), "0 rows");
    assert_eq!(footer_text(1500, false, true), "1500 rows");
    assert_eq!(footer_text(1000, true, false), "1000 rows \u{2014} loading more\u{2026}");
    assert_eq!(footer_text(1000, false, false), "1000 rows \u{2014} scroll for more");
}
