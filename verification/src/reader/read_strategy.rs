//! What every column strategy offers.
use crate::buffer::BufferDesc;
use crate::columns::{column_len, ArrowColumn};
use crate::driver::slice_rows;
use crate::error::MappingError;
use odbc_api::buffers::AnyColumnBufferSlice;
use vstd::prelude::*;

verus! {

/// All the decisions that depend on the type of a column: which buffer is bound to it, and
/// how an Arrow array is filled from that buffer after a fetch.
pub trait ReadStrategy {
    /// The buffer that the strategy wants bound to its column.
    spec fn spec_buffer_desc(&self) -> BufferDesc;

    /// What the strategy relies on when it reads a column of a fetched buffer.
    spec fn reads(&self, column_view: AnyColumnBufferSlice<'_>) -> bool;

    /// True where `filled` is what the strategy makes of the column.
    spec fn fills(
        &self,
        column_view: AnyColumnBufferSlice<'_>,
        filled: Result<ArrowColumn, MappingError>,
    ) -> bool;

    /// Describes the buffer that is bound to the column.
    fn buffer_desc(&self) -> (r: BufferDesc)
        ensures
            r == self.spec_buffer_desc(),
    ;

    /// Makes an Arrow array of the valid rows of the column: one value for each row.
    fn fill_arrow_array(&self, column_view: AnyColumnBufferSlice<'_>) -> (r: Result<
        ArrowColumn,
        MappingError,
    >)
        requires
            self.reads(column_view),
        ensures
            self.fills(column_view, r),
            r is Ok ==> column_len(r->Ok_0) == slice_rows(column_view),
    ;
}

} // verus!
