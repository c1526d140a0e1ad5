//! The ways in which setting up a reader, or converting a batch, can fail.
use crate::schema::LogicalType;
use odbc_api::DataType;
use vstd::prelude::*;

verus! {

/// Why no reader could be made for a result set. `E` is the error of the driver.
#[derive(Debug)]
pub enum Error<E> {
    /// The schema asks for a type that no column strategy fetches.
    UnsupportedLogicalType(LogicalType),
    /// The driver failed to describe a column or to report its data type.
    FailedToDescribeColumn(E),
    /// The SQL type tells no length for its text, and asking the driver for the display size
    /// of the column failed.
    UnknownStringLength { sql_type: DataType, source: E },
    /// The driver reported a display size below one.
    InvalidDisplaySize(isize),
    /// The driver failed to report the number of columns in the result set.
    UnableToRetrieveNumCols(E),
    /// Neither the SQL type, nor the driver, nor a limit set by the caller tells how long the
    /// text of the column can get.
    ZeroSizedColumn { sql_type: DataType },
    /// The buffers for batches of `max_batch_size` rows would take more bytes than can be
    /// counted, let alone allocated.
    BufferTooLarge { max_batch_size: usize },
    /// The buffers could not be allocated or bound to the cursor.
    FailedToBindBuffer(E),
}

/// Why a fetched buffer could not be turned into an array.
#[derive(Debug, Clone, Copy, PartialEq, Eq, Structural)]
pub enum MappingError {
    /// The buffer bound to the column is not of the kind that the strategy reads.
    UnexpectedBuffer,
    /// The value in `row` of a narrow text buffer is not UTF-8.
    InvalidUtf8 { row: usize },
    /// The value in `row` of a wide text buffer is not UTF-16.
    InvalidUtf16 { row: usize },
    /// No zero byte ends the value in `row`.
    MissingTerminatingZero { row: usize },
    /// With the value in `row`, the text of the column no longer fits an array whose offsets
    /// are 32 bits wide.
    TooMuchData { row: usize },
    /// The value in `row` is none that its type has: a day that the calendar does not have,
    /// or a text that is no number.
    MalformedValue { row: usize },
    /// The value in `row` is beyond what the type of the array holds.
    ValueOutOfRange { row: usize },
}

} // verus!
