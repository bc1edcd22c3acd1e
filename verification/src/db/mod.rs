//! What the database backends share: their error type, their common
//! interface, and the SQL text used to page through a query's result.

pub mod postgres;
pub mod sqlite;

use std::sync::Arc;

use vstd::prelude::*;

use crate::state::{rows_view, strings_view, TableData};
use crate::text::{decimal, push_decimal};

verus! {

/// An error reported by a database backend, as its text.
#[derive(Debug)]
pub struct DbError(pub String);

impl DbError {
    /// The text of the error, which is what the error displays as.
    pub fn message(&self) -> (m: String)
        ensures
            m@ == self.0@,
    {
        self.0.clone()
    }
}

/// Common interface implemented by every database backend.
pub trait DbDriver {
    /// The names of the tables the user can browse.
    fn get_tables(&self) -> Result<Vec<String>, DbError>;

    /// Executes an arbitrary query and returns all matching rows.
    fn execute_query(&self, query: &str) -> Result<TableData, DbError>;

    /// Executes `query` wrapped in LIMIT/OFFSET for lazy pagination.
    /// Implementations use a subquery so the user's own ORDER BY / WHERE
    /// clauses are preserved.
    fn execute_query_paged(&self, query: &str, offset: usize, limit: usize) -> Result<TableData, DbError>;
}

/// `query` wrapped as a subquery named `alias`, limited to `limit` rows
/// starting at row `offset`:
/// `SELECT * FROM (<query>) AS <alias> LIMIT <limit> OFFSET <offset>`.
pub open spec fn paged_sql(query: Seq<char>, alias: Seq<char>, offset: nat, limit: nat) -> Seq<char> {
    "SELECT * FROM ("@ + query + ") AS "@ + alias + " LIMIT "@ + decimal(limit) + " OFFSET "@ + decimal(offset)
}

/// The paging query keeps the user's query verbatim, as a subquery: it
/// stands right after `SELECT * FROM (` and is followed by `) AS `.
pub proof fn lemma_paged_keeps_query(query: Seq<char>, alias: Seq<char>, offset: nat, limit: nat)
    ensures
        paged_sql(query, alias, offset, limit).subrange(15, 15 + query.len() as int) == query,
        paged_sql(query, alias, offset, limit).subrange(0, 15) == "SELECT * FROM ("@,
        paged_sql(query, alias, offset, limit).subrange(15 + query.len() as int, 20 + query.len() as int) == ") AS "@,
{
    reveal_strlit("SELECT * FROM (");
    reveal_strlit(") AS ");
    let p = paged_sql(query, alias, offset, limit);
    let head = "SELECT * FROM ("@;
    let rest = ") AS "@ + alias + " LIMIT "@ + decimal(limit) + " OFFSET "@ + decimal(offset);
    assert(p =~= head + query + rest);
    assert(p.subrange(15, 15 + query.len() as int) =~= query);
    assert(p.subrange(0, 15) =~= head);
    assert(p.subrange(15 + query.len() as int, 20 + query.len() as int) =~= ") AS "@);
}

/// Builds the paging query described by `paged_sql`.
pub fn paged_query(query: &str, alias: &str, offset: usize, limit: usize) -> (sql: String)
    ensures
        sql@ == paged_sql(query@, alias@, offset as nat, limit as nat),
{
    let mut sql = String::from_str("SELECT * FROM (");
    sql.append(query);
    sql.append(") AS ");
    sql.append(alias);
    sql.append(" LIMIT ");
    push_decimal(&mut sql, limit as u64);
    sql.append(" OFFSET ");
    push_decimal(&mut sql, offset as u64);
    assert(sql@ =~= paged_sql(query@, alias@, offset as nat, limit as nat));
    sql
}

/// The query that shows a table when it is picked from the list:
/// `SELECT * FROM "<table>"`.
pub open spec fn browse_sql(table: Seq<char>) -> Seq<char> {
    "SELECT * FROM \""@ + table + "\""@
}

/// The browse query names the table verbatim between double quotes.
pub proof fn lemma_browse_names_table(table: Seq<char>)
    ensures
        browse_sql(table).len() == table.len() + 16,
        browse_sql(table).subrange(15, 15 + table.len() as int) == table,
        browse_sql(table)[14] == '"',
        browse_sql(table).last() == '"',
{
    reveal_strlit("SELECT * FROM \"");
    reveal_strlit("\"");
    let b = browse_sql(table);
    assert(b.subrange(15, 15 + table.len() as int) =~= table);
}

/// Builds the query described by `browse_sql`.
pub fn browse_table_query(table: &str) -> (sql: String)
    ensures
        sql@ == browse_sql(table@),
{
    let mut sql = String::from_str("SELECT * FROM \"");
    sql.append(table);
    sql.append("\"");
    assert(sql@ =~= browse_sql(table@));
    sql
}

fn text(s: &str) -> (t: String)
    ensures
        t@ == s@,
{
    String::from_str(s)
}

/// A backend with fixed answers, for exercising the client without a
/// database.
pub struct MockDriver;

impl DbDriver for MockDriver {
    fn get_tables(&self) -> (r: Result<Vec<String>, DbError>)
        ensures
            r matches Ok(t) && strings_view(t@) == seq!["mock_orders"@, "mock_products"@, "mock_users"@],
    {
        let t = vec![text("mock_orders"), text("mock_products"), text("mock_users")];
        assert(strings_view(t@) =~= seq!["mock_orders"@, "mock_products"@, "mock_users"@]);
        Ok(t)
    }

    fn execute_query(&self, query: &str) -> (r: Result<TableData, DbError>)
        ensures
            r matches Ok(d) && {
                &&& strings_view(d.columns@) == seq!["id"@, "name"@, "status"@]
                &&& strings_view(d.column_types@) == seq!["int4"@, "text"@, "text"@]
                &&& rows_view(d.rows@) == seq![
                    seq![Some("1"@), Some("Alice"@), Some("active"@)],
                    seq![Some("2"@), Some("Bob"@), Some("inactive"@)],
                    seq![Some("3"@), None, Some("active"@)],
                ]
            },
    {
        let columns = vec![text("id"), text("name"), text("status")];
        let column_types = vec![text("int4"), text("text"), text("text")];
        let rows = vec![
            vec![Some(text("1")), Some(text("Alice")), Some(text("active"))],
            vec![Some(text("2")), Some(text("Bob")), Some(text("inactive"))],
            vec![Some(text("3")), None, Some(text("active"))],
        ];
        assert(strings_view(columns@) =~= seq!["id"@, "name"@, "status"@]);
        assert(strings_view(column_types@) =~= seq!["int4"@, "text"@, "text"@]);
        assert(rows_view(rows@) =~= seq![
            seq![Some("1"@), Some("Alice"@), Some("active"@)],
            seq![Some("2"@), Some("Bob"@), Some("inactive"@)],
            seq![Some("3"@), None, Some("active"@)],
        ]) by {
            assert(crate::state::row_view(rows@[0]) =~= seq![Some("1"@), Some("Alice"@), Some("active"@)]);
            assert(crate::state::row_view(rows@[1]) =~= seq![Some("2"@), Some("Bob"@), Some("inactive"@)]);
            assert(crate::state::row_view(rows@[2]) =~= seq![Some("3"@), None, Some("active"@)]);
        }
        Ok(TableData { columns, column_types, rows: Arc::new(rows) })
    }

    fn execute_query_paged(&self, query: &str, offset: usize, limit: usize) -> (r: Result<TableData, DbError>)
        ensures
            r matches Ok(d) && d.columns@.len() == 0 && d.column_types@.len() == 0 && d.rows@.len() == 0,
    {
        Ok(TableData { columns: Vec::new(), column_types: Vec::new(), rows: Arc::new(Vec::new()) })
    }
}

} // verus!
