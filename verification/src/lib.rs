//! Translation of MySQL dumps and live MySQL data into SQLite's dialect.
//!
//! The crate is pure: it reads no file and opens no connection. A caller feeds
//! it lines, statements, column descriptions and row values, and executes what
//! it hands back.
//!
//! - `reassembler` gathers the lines of a dump into statements.
//! - `schema` rewrites a `CREATE TABLE` statement.
//! - `alter` finds the `ALTER TABLE` statements that SQLite cannot follow.
//! - `dump` decides what becomes of each statement of a dump.
//! - `storage` maps column types to storage classes.
//! - `value` coerces the values of a row.
//! - `tables` filters the tables of a live source and writes their SQL.
//! - `policy` says which failures end a run.
//! - `text` defines the text operations that all of this rests on, and `scan`
//!   computes them.

pub mod alter;
pub mod dump;
pub mod policy;
pub mod reassembler;
pub mod scan;
pub mod schema;
pub mod storage;
pub mod tables;
pub mod text;
pub mod value;
