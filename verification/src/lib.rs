//! A small database client core: saved connections, query results with
//! lazy paging, the SQL text the drivers send, and the state transitions of
//! the client's screens.

pub mod connections;
pub mod db;
pub mod sample;
pub mod state;
pub mod text;
pub mod ui;
