use arrow::array::{Array, AsArray, Int32Array};
use arrow::datatypes::Int32Type;
use arrow_odbc::{
    buffer_descs, odbc_batch_to_arrow_columns, ArrowColumn, BufferDesc, MappingError, NarrowText,
    RawBatch, ReadStrategy,
};
use odbc_api::buffers::{AnyColumnBufferSlice, BoxColumnBuffer, Slice, TextColumn};
use std::sync::Arc;

// A column of 32 bit integers without NULL, or a narrow text column.
enum Strategy {
    Int32,
    Text(NarrowText),
}

impl ReadStrategy for Strategy {
    // The first three are only spoken of in contracts and never run.
    fn spec_buffer_desc(&self) -> BufferDesc {
        self.buffer_desc()
    }

    fn reads(&self, _column_view: AnyColumnBufferSlice<'_>) -> bool {
        true
    }

    fn fills(&self, _column_view: AnyColumnBufferSlice<'_>, _filled: Result<ArrowColumn, MappingError>) -> bool {
        true
    }

    fn buffer_desc(&self) -> BufferDesc {
        match self {
            Strategy::Int32 => BufferDesc::I32 { nullable: false },
            Strategy::Text(text) => text.buffer_desc(),
        }
    }

    fn fill_arrow_array(&self, column_view: AnyColumnBufferSlice<'_>) -> Result<ArrowColumn, MappingError> {
        match self {
            Strategy::Int32 => {
                let values = column_view.as_slice::<i32>().ok_or(MappingError::UnexpectedBuffer)?;
                Ok(ArrowColumn { array: Arc::new(Int32Array::from(values.to_vec())) })
            }
            Strategy::Text(text) => text.fill_arrow_array(column_view),
        }
    }
}

#[test]
fn strategies_of_the_caller_stand_beside_those_of_the_library() {
    let numbers: BoxColumnBuffer = Box::new(vec![7i32, 8, 9]);
    let mut texts = TextColumn::<u8>::new(3, 4);
    texts.set_value(0, Some(b"a"));
    texts.set_value(1, None);
    texts.set_value(2, Some(b"c"));
    let texts: BoxColumnBuffer = Box::new(texts);
    let strategies = vec![Strategy::Int32, Strategy::Text(NarrowText::new(4))];
    assert_eq!(
        buffer_descs(&strategies),
        vec![BufferDesc::I32 { nullable: false }, BufferDesc::Text { max_str_len: 4 }]
    );
    let batch = RawBatch { num_rows: 2, columns: vec![numbers.slice(2), texts.slice(2)] };
    let columns = odbc_batch_to_arrow_columns(&strategies, &batch).unwrap();
    assert_eq!(columns.len(), 2);
    assert_eq!(columns[0].array.as_primitive::<Int32Type>().values(), &[7, 8]);
    assert_eq!(columns[1].array.as_string::<i32>().value(0), "a");
    assert!(columns[1].array.is_null(1));
    let batch = RawBatch { num_rows: 1, columns: vec![texts.slice(1), numbers.slice(1)] };
    let failed = odbc_batch_to_arrow_columns(&strategies, &batch);
    assert_eq!(failed.err(), Some(MappingError::UnexpectedBuffer));
}
