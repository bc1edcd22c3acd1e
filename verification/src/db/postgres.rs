//! The PostgreSQL backend's own rules: how the connection form becomes
//! connection settings, how table names are shown, how the rows of a simple
//! query are collected, and the SQL it sends.

use std::sync::Arc;

use vstd::prelude::*;

use crate::db::{paged_query, paged_sql};
use crate::state::{row_view, rows_view, strings_view, TableData};
use crate::text::{parse_u16, parsed_u16, same_text};

verus! {

/// The port used when the port field does not hold a valid port number.
pub const DEFAULT_PORT: u16 = 5432;

/// The query that lists the user's tables: base tables outside the system
/// schemas, ordered by schema and name.
pub const TABLES_QUERY: &'static str = "SELECT table_schema, table_name FROM information_schema.tables WHERE table_schema NOT IN ('pg_catalog','information_schema','pg_toast') AND table_type = 'BASE TABLE' ORDER BY table_schema, table_name";

/// The alias given to the user's query when it is paged.
pub const PAGED_ALIAS: &'static str = "_paged_q";

/// The settings a connection is opened with.
pub struct PgConnectParams {
    pub host: String,
    pub port: u16,
    pub user: String,
    pub dbname: String,
    /// `None` when the password field was left empty: no password is sent.
    pub password: Option<String>,
}

/// The port a port field stands for: its number when it parses as one,
/// `DEFAULT_PORT` otherwise.
pub open spec fn port_of(field: Seq<char>) -> u16 {
    match parsed_u16(field) {
        Some(p) => p,
        None => DEFAULT_PORT,
    }
}

/// The connection settings that the connection form's fields give.
pub fn connect_params(host: &str, port: &str, user: &str, password: &str, database: &str) -> (p: PgConnectParams)
    ensures
        p.host@ == host@,
        p.port == port_of(port@),
        p.user@ == user@,
        p.dbname@ == database@,
        password@.len() == 0 ==> p.password is None,
        password@.len() > 0 ==> (p.password matches Some(pw) && pw@ == password@),
{
    let port_number = match parse_u16(port) {
        Some(p) => p,
        None => DEFAULT_PORT,
    };
    let password = if password.is_empty() {
        None
    } else {
        Some(String::from_str(password))
    };
    PgConnectParams {
        host: String::from_str(host),
        port: port_number,
        user: String::from_str(user),
        dbname: String::from_str(database),
        password,
    }
}

/// How a table is listed: by its bare name in the `public` schema,
/// as `schema.table` elsewhere.
pub open spec fn qualified_name(schema: Seq<char>, table: Seq<char>) -> Seq<char> {
    if schema == "public"@ {
        table
    } else {
        schema + "."@ + table
    }
}

/// A table is listed by its bare name exactly when it is in the `public`
/// schema; otherwise its name is prefixed by its schema and a dot. Either
/// way the listed name ends with the table's name.
pub proof fn lemma_qualified_name(schema: Seq<char>, table: Seq<char>)
    ensures
        qualified_name(schema, table) == table <==> schema == "public"@,
        schema != "public"@ ==> qualified_name(schema, table) == schema + seq!['.'] + table,
        qualified_name(schema, table).subrange(
            qualified_name(schema, table).len() - table.len(),
            qualified_name(schema, table).len() as int,
        ) == table,
{
    reveal_strlit(".");
    let q = qualified_name(schema, table);
    if schema != "public"@ {
        assert(q =~= schema + seq!['.'] + table);
        assert(q.len() > table.len());
        assert(q.subrange(q.len() - table.len(), q.len() as int) =~= table);
    } else {
        assert(q.subrange(0, q.len() as int) =~= table);
    }
}

/// The listed name of `table` in `schema` (see `qualified_name`).
pub fn qualified_table_name(schema: String, table: String) -> (name: String)
    ensures
        name@ == qualified_name(schema@, table@),
{
    if same_text(schema.as_str(), "public") {
        table
    } else {
        let mut name = schema;
        name.append(".");
        name.append(table.as_str());
        name
    }
}

/// The listed names of the tables given as `(schema, table)` pairs, in order.
pub fn table_names(rows: Vec<(String, String)>) -> (names: Vec<String>)
    ensures
        strings_view(names@) == rows@.map_values(|r: (String, String)| qualified_name(r.0@, r.1@)),
{
    let mut names: Vec<String> = Vec::new();
    let ghost all = rows@;
    for pair in it: rows.into_iter()
        invariant
            it.seq() == all,
            strings_view(names@) == all.take(it.index() as int).map_values(|r: (String, String)| qualified_name(r.0@, r.1@)),
    {
        let ghost before = names@;
        let ghost i = it.index();
        let name = qualified_table_name(pair.0, pair.1);
        names.push(name);
        assert(all.take(i + 1) =~= all.take(i as int).push(all[i as int]));
        assert(strings_view(names@) =~= strings_view(before).push(name@));
    }
    assert(all.take(all.len() as int) =~= all);
    names
}

/// A message of a simple query's reply: a row of text cells (`None` for
/// NULL), or anything else (command completion, row description, ...).
pub enum SimpleMessage {
    Row(Vec<Option<String>>),
    Other,
}

/// The rows of a simple query's reply: the first `width` cells of each row
/// message, in order; other messages are skipped.
pub open spec fn message_rows(messages: Seq<SimpleMessage>, width: nat) -> Seq<Seq<Option<Seq<char>>>>
    decreases messages.len(),
{
    if messages.len() == 0 {
        Seq::empty()
    } else {
        let before = message_rows(messages.drop_last(), width);
        match messages.last() {
            SimpleMessage::Row(r) => before.push(row_view(r).take(width as int)),
            SimpleMessage::Other => before,
        }
    }
}

/// Whether every row message holds at least `width` cells.
pub open spec fn rows_have_width(messages: Seq<SimpleMessage>, width: nat) -> bool {
    forall|i: int| 0 <= i < messages.len() ==> (#[trigger] messages[i] matches SimpleMessage::Row(r) ==> r@.len() >= width)
}

/// The cells a message contributes: the first `width` cells of a row
/// message, nothing for any other message.
pub open spec fn row_of_message(m: SimpleMessage, width: nat) -> Option<Seq<Option<Seq<char>>>> {
    match m {
        SimpleMessage::Row(r) => Some(row_view(r).take(width as int)),
        SimpleMessage::Other => None,
    }
}

/// The rows of a reply are its row messages, in order, each cut to `width`
/// cells, whatever the cells hold; other messages add nothing.
pub proof fn lemma_message_rows_are_row_messages(messages: Seq<SimpleMessage>, width: nat)
    ensures
        message_rows(messages, width) == messages.filter_map(|m: SimpleMessage| row_of_message(m, width)),
    decreases messages.len(),
{
    if messages.len() > 0 {
        lemma_message_rows_are_row_messages(messages.drop_last(), width);
        let f = |m: SimpleMessage| row_of_message(m, width);
        let rest = messages.drop_last().filter_map(f);
        match messages.last() {
            SimpleMessage::Row(r) => {
                assert(message_rows(messages, width) =~= rest + seq![row_view(r).take(width as int)]);
            },
            SimpleMessage::Other => {},
        }
    }
}

/// When every message is a row, the result has one row per message: row
/// `k` is the first `width` cells of message `k`.
pub proof fn lemma_every_row_kept(messages: Seq<SimpleMessage>, width: nat)
    requires
        forall|i: int| 0 <= i < messages.len() ==> #[trigger] messages[i] is Row,
    ensures
        message_rows(messages, width).len() == messages.len(),
        forall|k: int| 0 <= k < messages.len() ==> (messages[k] matches SimpleMessage::Row(r)
            && #[trigger] message_rows(messages, width)[k] == row_view(r).take(width as int)),
    decreases messages.len(),
{
    if messages.len() > 0 {
        let init = messages.drop_last();
        assert forall|i: int| 0 <= i < init.len() implies #[trigger] init[i] is Row by {
            assert(init[i] == messages[i]);
        }
        lemma_every_row_kept(init, width);
        assert(messages[messages.len() - 1] is Row);
        assert forall|k: int| 0 <= k < messages.len() implies (messages[k] matches SimpleMessage::Row(r)
            && #[trigger] message_rows(messages, width)[k] == row_view(r).take(width as int)) by {
            if k < init.len() {
                assert(init[k] == messages[k]);
                assert(message_rows(init, width)[k] == message_rows(messages, width)[k]);
            }
        }
    }
}

/// A message that is not a row adds nothing to the result.
pub proof fn lemma_other_messages_skipped(messages: Seq<SimpleMessage>, width: nat)
    ensures
        message_rows(messages.push(SimpleMessage::Other), width) == message_rows(messages, width),
{
    assert(messages.push(SimpleMessage::Other).drop_last() =~= messages);
}

/// The port of a connection: the number the port field holds when it parses
/// as a port, and 5432 only when it does not.
pub proof fn lemma_port_of(field: Seq<char>)
    ensures
        parsed_u16(field) matches Some(p) ==> port_of(field) == p,
        parsed_u16(field) is None ==> port_of(field) == 5432,
{
}

/// A query's result from its column names and types (from preparing it) and
/// the messages of its simple-query reply, which gives every value as text.
pub fn table_data(columns: Vec<String>, column_types: Vec<String>, messages: Vec<SimpleMessage>) -> (d: TableData)
    requires
        rows_have_width(messages@, columns@.len()),
    ensures
        d.columns == columns,
        d.column_types == column_types,
        rows_view(d.rows@) == message_rows(messages@, columns@.len()),
{
    let width = columns.len();
    let mut rows: Vec<Vec<Option<String>>> = Vec::new();
    let mut i: usize = 0;
    let n = messages.len();
    while i < n
        invariant
            n == messages@.len(),
            width == columns@.len(),
            i <= n,
            rows_have_width(messages@, width as nat),
            rows_view(rows@) == message_rows(messages@.take(i as int), width as nat),
        decreases n - i,
    {
        assert(messages@.take(i + 1).drop_last() =~= messages@.take(i as int));
        match &messages[i] {
            SimpleMessage::Row(r) => {
                let ghost before = rows@;
                let mut row: Vec<Option<String>> = Vec::new();
                let mut k: usize = 0;
                while k < width
                    invariant
                        k <= width,
                        width <= r@.len(),
                        row@.len() == k,
                        forall|j: int| 0 <= j < k ==> crate::state::cell_view(#[trigger] row@[j]) == crate::state::cell_view(r@[j]),
                    decreases width - k,
                {
                    let c = match &r[k] {
                        Some(s) => Some(s.clone()),
                        None => None,
                    };
                    row.push(c);
                    k = k + 1;
                }
                assert(row_view(row) =~= row_view(*r).take(width as int));
                rows.push(row);
                assert(rows_view(rows@) =~= rows_view(before).push(row_view(row)));
            },
            SimpleMessage::Other => {},
        }
        i = i + 1;
    }
    assert(messages@.take(n as int) =~= messages@);
    TableData { columns, column_types, rows: Arc::new(rows) }
}

/// `query` limited to `limit` rows from row `offset`, as a subquery so the
/// user's ORDER BY / WHERE clauses are kept.
pub fn paged_query_sql(query: &str, offset: usize, limit: usize) -> (sql: String)
    ensures
        sql@ == paged_sql(query@, PAGED_ALIAS@, offset as nat, limit as nat),
{
    paged_query(query, PAGED_ALIAS, offset, limit)
}

} // verus!
