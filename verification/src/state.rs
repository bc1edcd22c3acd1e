//! The client's state: query results (with lazy paging) and the transitions
//! the screens make on user actions and when background work completes.

use std::sync::Arc;

use vstd::prelude::*;

use crate::connections::{upserted, updated_at, removed_at, ConnectionStore, SavedConnection};
use crate::db::{browse_sql, browse_table_query, DbError};
use crate::sample::{is_sample_data, sample_data};
use crate::text::{trim, trimmed, equals_ignoring_ascii_case, eq_ignoring_ascii_case, same_text};

verus! {

/// Rows fetched per lazy-load request.
pub const CHUNK_SIZE: usize = 1000;

/// The text of a cell: `None` for SQL NULL.
pub open spec fn cell_view(c: Option<String>) -> Option<Seq<char>> {
    match c {
        Some(s) => Some(s@),
        None => None,
    }
}

/// The text of a row's cells.
pub open spec fn row_view(r: Vec<Option<String>>) -> Seq<Option<Seq<char>>> {
    r@.map_values(|c: Option<String>| cell_view(c))
}

/// The text of a list of rows.
pub open spec fn rows_view(rows: Seq<Vec<Option<String>>>) -> Seq<Seq<Option<Seq<char>>>> {
    rows.map_values(|r: Vec<Option<String>>| row_view(r))
}

/// The text of a list of strings.
pub open spec fn strings_view(v: Seq<String>) -> Seq<Seq<char>> {
    v.map_values(|s: String| s@)
}

/// The text of rows keeps every row and every cell in place: a NULL cell
/// stays NULL and any other cell is shown as its text.
pub proof fn lemma_rows_view(rows: Seq<Vec<Option<String>>>)
    ensures
        rows_view(rows).len() == rows.len(),
        forall|k: int| 0 <= k < rows.len() ==> {
            &&& (#[trigger] rows_view(rows)[k]).len() == rows[k]@.len()
            &&& forall|j: int| 0 <= j < rows[k]@.len() ==> (#[trigger] rows_view(rows)[k][j] is None
                <==> rows[k]@[j] is None)
            &&& forall|j: int| 0 <= j < rows[k]@.len() ==> (rows[k]@[j] matches Some(t)
                ==> #[trigger] rows_view(rows)[k][j] == Some(t@))
        },
{
}

/// The text of a list of strings keeps each string, in order.
pub proof fn lemma_strings_view(v: Seq<String>)
    ensures
        strings_view(v).len() == v.len(),
        forall|k: int| 0 <= k < v.len() ==> #[trigger] strings_view(v)[k] == v[k]@,
{
}

/// Flat result returned by a driver for a single query or page.
pub struct TableData {
    pub columns: Vec<String>,
    /// Postgres/SQLite type name per column (e.g. "int4", "text", "bool");
    /// empty for an SQLite column that declares no type.
    pub column_types: Vec<String>,
    /// `None` = SQL NULL; `Some(s)` = cell value.
    pub rows: Arc<Vec<Vec<Option<String>>>>,
}

/// All rows loaded so far for the active query, growing as the user scrolls.
pub struct PagedTableData {
    pub columns: Vec<String>,
    pub column_types: Vec<String>,
    /// The bare query (no LIMIT/OFFSET) used to fetch subsequent chunks.
    pub query: String,
    /// Accumulated rows across all loaded chunks. `None` = SQL NULL.
    pub rows: Arc<Vec<Vec<Option<String>>>>,
    pub chunk_size: usize,
    /// True when the last chunk came back with fewer rows than `chunk_size`.
    pub all_loaded: bool,
    /// True while a background chunk fetch is in flight.
    pub loading_next: bool,
}

fn copy_row(row: &Vec<Option<String>>) -> (r: Vec<Option<String>>)
    ensures
        row_view(r) == row_view(*row),
{
    let mut r: Vec<Option<String>> = Vec::new();
    let n = row.len();
    let mut i: usize = 0;
    while i < n
        invariant
            n == row.len(),
            i <= n,
            r@.len() == i,
            forall|k: int| 0 <= k < i ==> cell_view(#[trigger] r@[k]) == cell_view(row@[k]),
        decreases n - i,
    {
        let c = match &row[i] {
            Some(s) => Some(s.clone()),
            None => None,
        };
        r.push(c);
        i = i + 1;
    }
    assert(row_view(r) =~= row_view(*row));
    r
}

/// Appends copies of `rows` to `out`.
fn push_rows(out: &mut Vec<Vec<Option<String>>>, rows: &Vec<Vec<Option<String>>>)
    ensures
        rows_view(final(out)@) == rows_view(old(out)@) + rows_view(rows@),
{
    let n = rows.len();
    let mut i: usize = 0;
    while i < n
        invariant
            n == rows.len(),
            i <= n,
            rows_view(out@) == rows_view(old(out)@) + rows_view(rows@.take(i as int)),
        decreases n - i,
    {
        let ghost before = out@;
        let r = copy_row(&rows[i]);
        out.push(r);
        assert(rows@.take(i + 1) =~= rows@.take(i as int).push(rows@[i as int]));
        assert(rows_view(out@) =~= rows_view(before).push(row_view(rows@[i as int])));
        assert(rows_view(rows@.take(i + 1)) =~= rows_view(rows@.take(i as int)).push(row_view(rows@[i as int])));
        i = i + 1;
    }
    assert(rows@.take(n as int) =~= rows@);
}

impl PagedTableData {
    /// The first page of a result, fetched with `CHUNK_SIZE` as the limit.
    pub fn first_page(data: TableData, query: String) -> (p: PagedTableData)
        ensures
            p == (PagedTableData {
                columns: data.columns,
                column_types: data.column_types,
                query: query,
                rows: data.rows,
                chunk_size: CHUNK_SIZE,
                all_loaded: data.rows@.len() < CHUNK_SIZE,
                loading_next: false,
            }),
    {
        let all_loaded = data.rows.len() < CHUNK_SIZE;
        PagedTableData {
            columns: data.columns,
            column_types: data.column_types,
            query,
            rows: data.rows,
            chunk_size: CHUNK_SIZE,
            all_loaded,
            loading_next: false,
        }
    }

    /// Whether more rows may be fetched now: not everything is loaded and no
    /// fetch is already in flight.
    pub open spec fn may_load_more(&self) -> bool {
        !self.all_loaded && !self.loading_next
    }

    /// Whether more rows may be fetched now (see `may_load_more`).
    pub fn wants_next_chunk(&self) -> (b: bool)
        ensures
            b == self.may_load_more(),
    {
        !self.all_loaded && !self.loading_next
    }

    /// Adds a fetched chunk after the rows loaded so far. The chunk was asked
    /// for with `limit` rows; a shorter chunk means everything is loaded.
    pub fn append_chunk(&mut self, limit: usize, chunk: &TableData)
        ensures
            rows_view(final(self).rows@) == rows_view(old(self).rows@) + rows_view(chunk.rows@),
            final(self).all_loaded == (chunk.rows@.len() < limit),
            !final(self).loading_next,
            final(self).columns == old(self).columns,
            final(self).column_types == old(self).column_types,
            final(self).query == old(self).query,
            final(self).chunk_size == old(self).chunk_size,
    {
        let mut combined: Vec<Vec<Option<String>>> = Vec::new();
        push_rows(&mut combined, &self.rows);
        push_rows(&mut combined, &chunk.rows);
        assert(rows_view(combined@) =~= rows_view(self.rows@) + rows_view(chunk.rows@));
        self.rows = Arc::new(combined);
        self.all_loaded = chunk.rows.len() < limit;
        self.loading_next = false;
    }
}


/// Whether `p` is the first page of `data`, fetched for `query` with
/// `CHUNK_SIZE` as the limit.
pub open spec fn is_first_page(p: PagedTableData, data: TableData, query: Seq<char>) -> bool {
    &&& p.columns == data.columns
    &&& p.column_types == data.column_types
    &&& p.query@ == query
    &&& p.rows == data.rows
    &&& p.chunk_size == CHUNK_SIZE
    &&& p.all_loaded == (data.rows@.len() < CHUNK_SIZE)
    &&& !p.loading_next
}

/// The state of the connection to a database.
#[derive(PartialEq, Eq, Structural, Clone, Copy, Debug)]
pub enum ConnectionStatus {
    Disconnected,
    Connecting,
    Connected,
}

/// The connection form's fields.
pub struct ConnectionConfig {
    pub host: String,
    pub port: String,
    pub user: String,
    pub password: String,
    pub database: String,
}

/// The message shown when the background work of connecting ended without
/// an answer.
pub const CONNECTION_THREAD_FAILED: &'static str = "Connection thread failed";

/// The text of an optional message.
pub open spec fn message_text(m: Option<String>) -> Option<Seq<char>> {
    match m {
        Some(s) => Some(s@),
        None => None,
    }
}

/// A message's text: none for no message, the message's own text otherwise.
pub proof fn lemma_message_text(m: Option<String>)
    ensures
        message_text(m) is None <==> m is None,
        m matches Some(t) ==> message_text(m) == Some(t@),
{
}

/// The client's state. `D` is the kind of handle kept for the connected
/// database.
pub struct AppState<D> {
    pub connection_status: ConnectionStatus,
    pub driver: Option<D>,
    pub sql_query: String,
    // Main view
    pub tables: Vec<String>,
    pub active_table: Option<String>,
    pub results: Option<PagedTableData>,
    pub query_error: Option<String>,
    pub connection_error: Option<String>,
    pub query_in_progress: bool,
    // Home screen
    pub show_connection_form: bool,
    pub selected_conn_idx: Option<usize>,
}

/// What starting a query led to.
pub enum RunStart {
    /// Nothing to do: a query is already running, the query is blank, or
    /// there is no connection.
    Ignored,
    /// The synthetic result was shown; nothing runs in the background.
    Sample,
    /// The query (trimmed) is to be run in the background.
    Started(String),
}

/// The page of rows to fetch next for the current result.
pub struct ChunkRequest {
    pub query: String,
    pub offset: usize,
    pub limit: usize,
}

/// Whether the trimmed query text asks for the synthetic result
/// (`test 100k`, in any ASCII letter case).
pub open spec fn is_sample_command(t: Seq<char>) -> bool {
    eq_ignoring_ascii_case(t, "test 100k"@)
}

impl<D> AppState<D> {
    /// The state at start: disconnected, with nothing loaded.
    pub fn new() -> (s: Self)
        ensures
            s.connection_status == ConnectionStatus::Disconnected,
            s.driver is None,
            s.sql_query@ == Seq::<char>::empty(),
            s.tables@.len() == 0,
            s.active_table is None,
            s.results is None,
            s.query_error is None,
            s.connection_error is None,
            !s.query_in_progress,
            !s.show_connection_form,
            s.selected_conn_idx is None,
    {
        AppState {
            connection_status: ConnectionStatus::Disconnected,
            driver: None,
            sql_query: String::new(),
            tables: Vec::new(),
            active_table: None,
            results: None,
            query_error: None,
            connection_error: None,
            query_in_progress: false,
            show_connection_form: false,
            selected_conn_idx: None,
        }
    }

    /// "New connection": shows an empty connection form.
    pub fn open_connection_form(&mut self)
        ensures
            *final(self) == (AppState {
                show_connection_form: true,
                selected_conn_idx: None,
                connection_error: None,
                ..*old(self)
            }),
    {
        self.show_connection_form = true;
        self.selected_conn_idx = None;
        self.connection_error = None;
    }

    /// A saved connection was picked: shows the form for it.
    pub fn select_saved_connection(&mut self, index: usize)
        ensures
            *final(self) == (AppState {
                show_connection_form: true,
                selected_conn_idx: Some(index),
                connection_error: None,
                ..*old(self)
            }),
    {
        self.show_connection_form = true;
        self.selected_conn_idx = Some(index);
        self.connection_error = None;
    }

    /// Starts connecting (or testing a connection) unless an attempt is
    /// already under way. Returns whether it started.
    pub fn begin_connecting(&mut self) -> (started: bool)
        ensures
            started == (old(self).connection_status != ConnectionStatus::Connecting),
            started ==> *final(self) == (AppState {
                connection_status: ConnectionStatus::Connecting,
                connection_error: None,
                ..*old(self)
            }),
            !started ==> *final(self) == *old(self),
    {
        if self.connection_status == ConnectionStatus::Connecting {
            return false;
        }
        self.connection_status = ConnectionStatus::Connecting;
        self.connection_error = None;
        true
    }

    /// A connection test ended with `outcome` (`None` when the background
    /// work gave no answer). The client goes back to disconnected whatever
    /// the outcome; a failure is shown as the connection error. Returns
    /// whether the test succeeded.
    pub fn finish_test(&mut self, outcome: Option<Result<(), String>>) -> (succeeded: bool)
        ensures
            succeeded == (outcome matches Some(Ok(_))),
            message_text(final(self).connection_error) == (match outcome {
                Some(Ok(_)) => None,
                Some(Err(e)) => Some(e@),
                None => Some(CONNECTION_THREAD_FAILED@),
            }),
            *final(self) == (AppState {
                connection_status: ConnectionStatus::Disconnected,
                connection_error: final(self).connection_error,
                ..*old(self)
            }),
    {
        self.connection_status = ConnectionStatus::Disconnected;
        match outcome {
            Some(Ok(())) => {
                self.connection_error = None;
                true
            },
            Some(Err(e)) => {
                self.connection_error = Some(e);
                false
            },
            None => {
                self.connection_error = Some(String::from_str(CONNECTION_THREAD_FAILED));
                false
            },
        }
    }

    /// Connecting ended with `outcome`: the connected database's handle
    /// together with the result of listing its tables, an error message, or
    /// `None` when the background work gave no answer. On success the client
    /// shows the main view and `conn` is saved by name; a failure to list
    /// the tables is shown as `get_tables: <error>` above the results.
    /// Returns whether `conn` was saved.
    pub fn finish_connect(
        &mut self,
        store: &mut ConnectionStore,
        conn: SavedConnection,
        outcome: Option<Result<(D, Result<Vec<String>, DbError>), String>>,
    ) -> (saved: bool)
        ensures
            saved == (outcome matches Some(Ok(_))),
            match outcome {
                Some(Ok((d, listed))) => {
                    &&& final(store)@ == upserted(old(store)@, conn@)
                    &&& *final(self) == (AppState {
                        driver: Some(d),
                        connection_status: ConnectionStatus::Connected,
                        show_connection_form: false,
                        tables: match listed {
                            Ok(t) => t,
                            Err(_) => old(self).tables,
                        },
                        query_error: final(self).query_error,
                        ..*old(self)
                    })
                    &&& match listed {
                        Ok(_) => final(self).query_error == old(self).query_error,
                        Err(e) => message_text(final(self).query_error) == Some("get_tables: "@ + e.0@),
                    }
                },
                Some(Err(e)) => {
                    &&& final(store)@ == old(store)@
                    &&& message_text(final(self).connection_error) == Some(e@)
                    &&& *final(self) == (AppState {
                        connection_status: ConnectionStatus::Disconnected,
                        connection_error: final(self).connection_error,
                        ..*old(self)
                    })
                },
                None => {
                    &&& final(store)@ == old(store)@
                    &&& message_text(final(self).connection_error) == Some(CONNECTION_THREAD_FAILED@)
                    &&& *final(self) == (AppState {
                        connection_status: ConnectionStatus::Disconnected,
                        connection_error: final(self).connection_error,
                        ..*old(self)
                    })
                },
            },
    {
        match outcome {
            Some(Ok((driver, listed))) => {
                match listed {
                    Ok(tables) => {
                        self.tables = tables;
                    },
                    Err(e) => {
                        let mut m = String::from_str("get_tables: ");
                        m.append(e.0.as_str());
                        self.query_error = Some(m);
                    },
                }
                self.driver = Some(driver);
                self.connection_status = ConnectionStatus::Connected;
                self.show_connection_form = false;
                store.upsert(conn);
                true
            },
            Some(Err(e)) => {
                self.connection_status = ConnectionStatus::Disconnected;
                self.connection_error = Some(e);
                false
            },
            None => {
                self.connection_status = ConnectionStatus::Disconnected;
                self.connection_error = Some(String::from_str(CONNECTION_THREAD_FAILED));
                false
            },
        }
    }

    /// "Save" on the connection form: replaces the selected saved connection
    /// by `conn`, or saves `conn` by name when none is selected.
    pub fn save_connection(&self, store: &mut ConnectionStore, conn: SavedConnection)
        ensures
            final(store)@ == (match self.selected_conn_idx {
                Some(i) => updated_at(old(store)@, i as int, conn@),
                None => upserted(old(store)@, conn@),
            }),
    {
        match self.selected_conn_idx {
            Some(i) => store.update_at(i, conn),
            None => store.upsert(conn),
        }
    }

    /// "Delete" on a saved connection: removes it, and closes the form when
    /// it was the selected one.
    pub fn delete_saved_connection(&mut self, store: &mut ConnectionStore, index: usize)
        ensures
            final(store)@ == removed_at(old(store)@, index as int),
            old(self).selected_conn_idx == Some(index) ==> *final(self) == (AppState {
                selected_conn_idx: None,
                show_connection_form: false,
                ..*old(self)
            }),
            old(self).selected_conn_idx != Some(index) ==> *final(self) == *old(self),
    {
        store.remove(index);
        if self.selected_conn_idx == Some(index) {
            self.selected_conn_idx = None;
            self.show_connection_form = false;
        }
    }

    /// A table was picked from the list: its first page (`None` when it
    /// could not be fetched) is shown, fetched with `browse_sql(table)`, and
    /// the table becomes the active one.
    pub fn show_table(&mut self, table: String, page: Option<TableData>)
        ensures
            match page {
                Some(data) => {
                    &&& final(self).results matches Some(p) && is_first_page(p, data, browse_sql(table@))
                    &&& *final(self) == (AppState {
                        results: final(self).results,
                        query_error: None,
                        active_table: Some(table),
                        ..*old(self)
                    })
                },
                None => *final(self) == (AppState { active_table: Some(table), ..*old(self) }),
            },
    {
        match page {
            Some(data) => {
                let query = browse_table_query(table.as_str());
                self.results = Some(PagedTableData::first_page(data, query));
                self.query_error = None;
            },
            None => {},
        }
        self.active_table = Some(table);
    }

    /// "Run" (or Cmd+Enter) with the editor holding `sql`. Nothing happens
    /// while a query runs, when the trimmed text is empty, or without a
    /// connection; `test 100k` (any ASCII case) shows the synthetic result;
    /// otherwise the trimmed query is to be run and the client waits for it.
    pub fn start_run(&mut self, sql: &str) -> (r: RunStart)
        ensures
            ({
                let t = trimmed(sql@);
                if old(self).query_in_progress || t.len() == 0 {
                    &&& r is Ignored
                    &&& *final(self) == *old(self)
                } else if is_sample_command(t) {
                    &&& r is Sample
                    &&& final(self).results matches Some(p) && is_sample_data(p)
                    &&& *final(self) == (AppState {
                        results: final(self).results,
                        query_error: None,
                        active_table: None,
                        ..*old(self)
                    })
                } else if old(self).driver is None {
                    &&& r is Ignored
                    &&& *final(self) == *old(self)
                } else {
                    &&& r matches RunStart::Started(q) && q@ == t
                    &&& *final(self) == (AppState {
                        query_in_progress: true,
                        query_error: None,
                        ..*old(self)
                    })
                }
            }),
    {
        if self.query_in_progress {
            return RunStart::Ignored;
        }
        let trimmed_sql = trim(sql);
        if trimmed_sql.as_str().is_empty() {
            return RunStart::Ignored;
        }
        if equals_ignoring_ascii_case(trimmed_sql.as_str(), "test 100k") {
            self.results = Some(sample_data());
            self.query_error = None;
            self.active_table = None;
            return RunStart::Sample;
        }
        if self.driver.is_none() {
            return RunStart::Ignored;
        }
        self.query_in_progress = true;
        self.query_error = None;
        RunStart::Started(trimmed_sql)
    }

    /// The query `query` started by `start_run` ended with `outcome` (`None`
    /// when it was cancelled). Its first page replaces the results, or its
    /// error is shown.
    pub fn finish_run(&mut self, query: String, outcome: Option<Result<TableData, String>>)
        ensures
            match outcome {
                Some(Ok(data)) => {
                    &&& final(self).results matches Some(p) && is_first_page(p, data, query@)
                    &&& *final(self) == (AppState {
                        results: final(self).results,
                        query_error: None,
                        active_table: None,
                        query_in_progress: false,
                        ..*old(self)
                    })
                },
                Some(Err(e)) => *final(self) == (AppState {
                    query_error: Some(e),
                    results: None,
                    query_in_progress: false,
                    ..*old(self)
                }),
                None => *final(self) == *old(self),
            },
    {
        match outcome {
            Some(Ok(data)) => {
                self.results = Some(PagedTableData::first_page(data, query));
                self.query_error = None;
                self.active_table = None;
                self.query_in_progress = false;
            },
            Some(Err(e)) => {
                self.query_error = Some(e);
                self.results = None;
                self.query_in_progress = false;
            },
            None => {},
        }
    }

    /// "Cancel": the running query is abandoned.
    pub fn cancel_run(&mut self)
        ensures
            *final(self) == (AppState { query_in_progress: false, ..*old(self) }),
    {
        self.query_in_progress = false;
    }

    /// Starts fetching the next page of the current result, when there is a
    /// result and a connection: marks the result as loading and says which
    /// rows to fetch, the next `chunk_size` rows of the same query from the
    /// number of rows loaded so far. Otherwise nothing changes and nothing is
    /// fetched.
    pub fn begin_next_chunk(&mut self) -> (req: Option<ChunkRequest>)
        ensures
            match old(self).results {
                Some(r) if old(self).driver is Some => {
                    &&& *final(self) == (AppState {
                        results: Some(PagedTableData { loading_next: true, ..r }),
                        ..*old(self)
                    })
                    &&& final(self).results matches Some(p) && !p.may_load_more()
                    &&& req matches Some(q) && {
                        &&& q.query@ == r.query@
                        &&& q.offset == r.rows@.len()
                        &&& q.limit == r.chunk_size
                    }
                },
                _ => req is None && *final(self) == *old(self),
            },
    {
        if self.driver.is_none() {
            return None;
        }
        match &mut self.results {
            None => None,
            Some(r) => {
                r.loading_next = true;
                Some(ChunkRequest { query: r.query.clone(), offset: r.rows.len(), limit: r.chunk_size })
            },
        }
    }

    /// A page fetch asked for by `req` (from `begin_next_chunk`) ended with
    /// `outcome` (`None` when the fetch gave no answer). It concerns the
    /// current result only when that result is still the one the request was
    /// made for: the same query, with as many rows as the request's offset.
    /// Then a fetched page is added after the rows loaded so far, and a page
    /// shorter than the request's limit means everything is loaded; on an
    /// error or without an answer, loading stops for this result. A page for
    /// any other result is dropped.
    pub fn finish_next_chunk(&mut self, req: &ChunkRequest, outcome: Option<Result<TableData, String>>)
        ensures
            match old(self).results {
                Some(r) if is_request_for(r, *req) => final(self).results matches Some(p) && {
                    &&& *final(self) == (AppState { results: final(self).results, ..*old(self) })
                    &&& p.columns == r.columns
                    &&& p.column_types == r.column_types
                    &&& p.query == r.query
                    &&& p.chunk_size == r.chunk_size
                    &&& !p.loading_next
                    &&& match outcome {
                        Some(Ok(chunk)) => {
                            &&& rows_view(p.rows@) == rows_view(r.rows@) + rows_view(chunk.rows@)
                            &&& p.all_loaded == (chunk.rows@.len() < req.limit)
                        },
                        _ => p.rows == r.rows && p.all_loaded,
                    }
                },
                _ => *final(self) == *old(self),
            },
    {
        match &mut self.results {
            None => {},
            Some(r) => {
                if !same_text(r.query.as_str(), req.query.as_str()) || r.rows.len() != req.offset {
                    return;
                }
                match outcome {
                    Some(Ok(chunk)) => {
                        r.append_chunk(req.limit, &chunk);
                    },
                    _ => {
                        r.loading_next = false;
                        r.all_loaded = true;
                    },
                }
            },
        }
    }
}

/// Whether `req` asks for the next page of `r`: the same query, starting
/// after the rows `r` holds.
pub open spec fn is_request_for(r: PagedTableData, req: ChunkRequest) -> bool {
    r.query@ == req.query@ && r.rows@.len() == req.offset
}

/// More rows may be fetched exactly when no short page has arrived and no
/// fetch is in flight, however many rows are loaded.
pub proof fn lemma_may_load_more(p: PagedTableData)
    ensures
        p.may_load_more() == (!p.all_loaded && !p.loading_next),
{
}

/// A first page keeps the data's columns, types and rows, remembers the
/// query, pages by 1000 rows, is not loading, and counts as everything
/// loaded exactly when it holds fewer than 1000 rows.
pub proof fn lemma_first_page(p: PagedTableData, data: TableData, query: Seq<char>)
    requires
        is_first_page(p, data, query),
    ensures
        p.columns == data.columns,
        p.column_types == data.column_types,
        p.rows == data.rows,
        p.query@ == query,
        p.chunk_size == 1000,
        !p.loading_next,
        p.all_loaded <==> data.rows@.len() < 1000,
{
}

/// A request is for a result when it asks for the same query from the
/// number of rows the result holds.
pub proof fn lemma_request_for(r: PagedTableData, req: ChunkRequest)
    ensures
        is_request_for(r, req) <==> (r.query@ == req.query@ && r.rows@.len() == req.offset),
{
}

/// Lazy loading reproduces the whole result. Suppose the rows loaded so far
/// are the start of the full result, and the next page is fetched from
/// their count with `limit` rows, the database answering with that slice of
/// the full result. Then the rows after adding the page are still the start
/// of the full result, a full page adds `limit` rows, and a short page (the
/// signal that everything is loaded) means the whole result is loaded.
pub proof fn lemma_pages_tile<A>(loaded: Seq<A>, full: Seq<A>, limit: nat)
    requires
        loaded.len() <= full.len(),
        loaded == full.take(loaded.len() as int),
    ensures
        ({
            let end = if loaded.len() + limit <= full.len() { (loaded.len() + limit) as int } else { full.len() as int };
            let page = full.subrange(loaded.len() as int, end);
            &&& loaded + page == full.take((loaded + page).len() as int)
            &&& page.len() == limit ==> (loaded + page).len() == loaded.len() + limit
            &&& page.len() < limit ==> loaded + page == full
        }),
{
    let end = if loaded.len() + limit <= full.len() { (loaded.len() + limit) as int } else { full.len() as int };
    let page = full.subrange(loaded.len() as int, end);
    assert(loaded + page =~= full.take((loaded + page).len() as int));
    if page.len() < limit {
        assert(loaded + page =~= full);
    }
}

} // verus!
