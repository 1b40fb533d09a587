//! Backend messages of the PostgreSQL wire protocol, encoded to bytes, and the
//! planning step that turns a `CREATE TABLE` statement into a table-creation plan.

pub mod buffer;
pub mod create_table;
pub mod messages;
pub mod read_back;
pub mod reading;
pub mod wire;
