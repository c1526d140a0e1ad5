//! Fill Apache Arrow arrays from ODBC data sources.
//!
//! The library holds the decisions of the conversion: which Arrow type a column of the result set
//! gets, which buffer is bound to it, how the bound buffer is turned into an array, and what the
//! reader hands out after each fetch. Talking to the driver is left to the caller.
pub mod buffer;
pub mod columns;
pub mod conversion;
pub mod decimal;
pub mod driver;
pub mod error;
pub mod reader;
pub mod schema;
pub mod std_text;
pub mod utf16;

pub use crate::buffer::{batch_bytes, checked_batch_bytes, BufferDesc};
pub use crate::columns::ArrowColumn;
pub use crate::conversion::{
    bit_to_bool, bits_to_bools, dates_to_days, days_since_epoch, timestamp_since_epoch,
    timestamps_to_epoch, Date, Timestamp,
};
pub use crate::decimal::{decimal_from_text, decimals_from_texts, DecimalError};
pub use crate::error::{Error, MappingError};
pub use crate::reader::column_strategy::{
    binary_strategy, choose_column_strategy, strategy_of_type, BufferAllocationOptions,
    ColumnStrategy, NumericType,
};
pub use crate::reader::concurrent::WorkerState;
pub use crate::reader::odbc_reader::{
    buffer_descs, column_strategies, next, odbc_batch_to_arrow_columns, BatchError, OutputBatch,
    RawBatch,
};
pub use crate::reader::read_strategy::ReadStrategy;
pub use crate::reader::stream::ReaderState;
pub use crate::reader::text::{
    choose_text_strategy, narrow_text_strategy, text_length_of_type, text_strategy_from,
    wide_text_strategy, NarrowText, NarrowUseTerminatingZero, TextEncoding, TextStrategy, WideText,
};
pub use crate::schema::{
    arrow_schema_from, column_count, infer_field, infer_schema, logical_type, logical_type_from,
    ColumnDescriptor, Field, LogicalType, TimeUnit,
};
pub use crate::utf16::push_utf16;
