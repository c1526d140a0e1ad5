//! Reading a result set batch by batch.
pub mod column_strategy;
pub mod concurrent;
pub mod odbc_reader;
pub mod read_strategy;
pub mod stream;
pub mod text;
pub mod text_rows;
