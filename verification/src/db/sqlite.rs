//! The SQLite backend's own rules: how stored values are shown as text, how
//! a query's rows become a result, and the SQL it sends.

use std::sync::Arc;

use vstd::prelude::*;

use crate::db::{paged_query, paged_sql};
use crate::state::{rows_view, strings_view, TableData};
use crate::text::{decimal, push_decimal, push_signed_decimal, signed_decimal};

verus! {

/// The query that lists the tables and views of the database, by name.
pub const TABLES_QUERY: &'static str = "SELECT name FROM sqlite_master WHERE type IN ('table','view') ORDER BY name";

/// The statements that create a small example database (users, products and
/// orders) if its tables are missing.
pub const SEED_SQL: &'static str = "
        CREATE TABLE IF NOT EXISTS users (
            id      INTEGER PRIMARY KEY,
            name    TEXT NOT NULL,
            email   TEXT NOT NULL,
            created TEXT
        );
        CREATE TABLE IF NOT EXISTS products (
            id          INTEGER PRIMARY KEY,
            name        TEXT NOT NULL,
            price       REAL,
            stock       INTEGER
        );
        CREATE TABLE IF NOT EXISTS orders (
            id          INTEGER PRIMARY KEY,
            user_id     INTEGER,
            product_id  INTEGER,
            quantity    INTEGER,
            total       REAL
        );
        INSERT OR IGNORE INTO users VALUES (1,'Alice','alice@example.com','2024-01-01');
        INSERT OR IGNORE INTO users VALUES (2,'Bob','bob@example.com','2024-02-15');
        INSERT OR IGNORE INTO products VALUES (1,'Widget',9.99,100);
        INSERT OR IGNORE INTO products VALUES (2,'Gadget',49.99,25);
        INSERT OR IGNORE INTO orders VALUES (1,1,2,1,49.99);
        INSERT OR IGNORE INTO orders VALUES (2,2,1,3,29.97);
    ";

/// The alias given to the user's query when it is paged.
pub const PAGED_ALIAS: &'static str = "_q";

/// A value read from an SQLite row.
pub enum SqliteValue {
    Null,
    Integer(i64),
    /// A floating-point value, already written with four decimals (`{:.4}`).
    Real(String),
    Text(String),
    Blob(Vec<u8>),
}

/// How a value is shown: NULL as `None`, an integer in decimal, a real as
/// written, text as is, and a blob as `<blob N bytes>`.
pub open spec fn shown(v: SqliteValue) -> Option<Seq<char>> {
    match v {
        SqliteValue::Null => None,
        SqliteValue::Integer(n) => Some(signed_decimal(n as int)),
        SqliteValue::Real(t) => Some(t@),
        SqliteValue::Text(s) => Some(s@),
        SqliteValue::Blob(b) => Some("<blob "@ + decimal(b@.len()) + " bytes>"@),
    }
}

/// Only NULL is shown as NULL; an integer is shown as its decimal text
/// (with `-` when negative), text and reals as they are, and a blob by its
/// size.
pub proof fn lemma_shown_values(v: SqliteValue)
    ensures
        shown(v) is None <==> v is Null,
        v matches SqliteValue::Integer(n) ==> shown(v) == Some(
            if n < 0 { "-"@ + decimal((-n) as nat) } else { decimal(n as nat) },
        ),
        v matches SqliteValue::Text(t) ==> shown(v) == Some(t@),
        v matches SqliteValue::Real(t) ==> shown(v) == Some(t@),
        v matches SqliteValue::Blob(b) ==> shown(v) == Some("<blob "@ + decimal(b@.len()) + " bytes>"@),
{
    reveal_strlit("-");
    assert(seq!['-'] =~= "-"@);
}

/// The text a value is shown as (see `shown`).
pub fn cell_text(v: SqliteValue) -> (c: Option<String>)
    ensures
        crate::state::cell_view(c) == shown(v),
{
    match v {
        SqliteValue::Null => None,
        SqliteValue::Integer(n) => {
            let mut s = String::new();
            push_signed_decimal(&mut s, n);
            assert(s@ =~= signed_decimal(n as int));
            Some(s)
        },
        SqliteValue::Real(t) => Some(t),
        SqliteValue::Text(s) => Some(s),
        SqliteValue::Blob(b) => {
            let mut s = String::from_str("<blob ");
            push_decimal(&mut s, b.len() as u64);
            s.append(" bytes>");
            assert(s@ =~= "<blob "@ + decimal(b@.len()) + " bytes>"@);
            Some(s)
        },
    }
}

/// The text of a row of values.
pub open spec fn shown_row(r: Seq<SqliteValue>) -> Seq<Option<Seq<char>>> {
    r.map_values(|v: SqliteValue| shown(v))
}

/// The type name shown for a column: its declared type, or empty when it
/// has none (an expression, for instance).
pub open spec fn declared_type_text(declared: Option<String>) -> Seq<char> {
    match declared {
        Some(t) => t@,
        None => Seq::empty(),
    }
}

/// A column's type is shown as declared, and is empty only when none is
/// declared or the declaration itself is empty.
pub proof fn lemma_declared_type_text(declared: Option<String>)
    ensures
        declared matches Some(t) ==> declared_type_text(declared) == t@,
        declared is None ==> declared_type_text(declared).len() == 0,
{
}

/// A query's result from its column names, each column's declared type
/// (`None` where the column has none) and its rows of values.
pub fn table_data(columns: Vec<String>, declared_types: Vec<Option<String>>, rows: Vec<Vec<SqliteValue>>) -> (d: TableData)
    ensures
        d.columns == columns,
        strings_view(d.column_types@) == declared_types@.map_values(|t: Option<String>| declared_type_text(t)),
        rows_view(d.rows@) == rows@.map_values(|r: Vec<SqliteValue>| shown_row(r@)),
{
    let mut column_types: Vec<String> = Vec::new();
    let ghost decl = declared_types@;
    for t in it: declared_types.into_iter()
        invariant
            it.seq() == decl,
            strings_view(column_types@) == decl.take(it.index() as int).map_values(|t: Option<String>| declared_type_text(t)),
    {
        let ghost before = column_types@;
        let ghost i = it.index();
        let name = match t {
            Some(n) => n,
            None => String::new(),
        };
        column_types.push(name);
        assert(decl.take(i + 1) =~= decl.take(i as int).push(decl[i as int]));
        assert(strings_view(column_types@) =~= strings_view(before).push(name@));
    }
    assert(decl.take(decl.len() as int) =~= decl);
    let mut out: Vec<Vec<Option<String>>> = Vec::new();
    let ghost all = rows@;
    for row in it: rows.into_iter()
        invariant
            it.seq() == all,
            rows_view(out@) == all.take(it.index() as int).map_values(|r: Vec<SqliteValue>| shown_row(r@)),
    {
        let ghost before = out@;
        let ghost i = it.index();
        let ghost values = row@;
        let mut cells: Vec<Option<String>> = Vec::new();
        for v in jt: row.into_iter()
            invariant
                jt.seq() == values,
                crate::state::row_view(cells) == shown_row(values.take(jt.index() as int)),
        {
            let ghost cb = cells@;
            let ghost j = jt.index();
            let c = cell_text(v);
            cells.push(c);
            assert(values.take(j + 1) =~= values.take(j as int).push(values[j as int]));
            assert(crate::state::row_view(cells) =~= shown_row(values.take(j as int)).push(shown(values[j as int])));
        }
        assert(values.take(values.len() as int) =~= values);
        out.push(cells);
        assert(all.take(i + 1) =~= all.take(i as int).push(all[i as int]));
        assert(rows_view(out@) =~= rows_view(before).push(crate::state::row_view(cells)));
    }
    assert(all.take(all.len() as int) =~= all);
    TableData { columns, column_types, rows: Arc::new(out) }
}

/// `query` limited to `limit` rows from row `offset`, as a subquery so the
/// user's ORDER BY / WHERE clauses are kept.
pub fn paged_query_sql(query: &str, offset: usize, limit: usize) -> (sql: String)
    ensures
        sql@ == paged_sql(query@, PAGED_ALIAS@, offset as nat, limit as nat),
{
    paged_query(query, PAGED_ALIAS, offset, limit)
}

} // verus!
