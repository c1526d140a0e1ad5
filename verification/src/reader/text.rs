//! Text columns: how long their buffer is, in which encoding it is asked for, and how it is read.
use crate::buffer::BufferDesc;
use crate::columns::{
    builder_finish, builder_values, column_text, data_len, max_data_len, ArrowColumn,
};
use crate::driver::{
    as_text, as_wide_text, lengths_in_range, narrow_get, narrow_len, narrow_max_len,
    narrow_max_str_len, narrow_raw, narrow_raw_values, narrow_rows, narrow_slice, narrow_value,
    opt_nat, sql_column_size, sql_decimal_digits, sql_type_code, sql_utf16_len, sql_utf8_len,
    utf16_len, utf8_len, wide_get, wide_len, wide_rows, wide_slice, wide_value, SQL_TIME,
    SQL_TIMESTAMP,
};
use crate::error::{Error, MappingError};
use crate::reader::read_strategy::ReadStrategy;
use crate::reader::text_rows::{
    append_text, ends_at, faulty, gathered, lemma_texts_take, narrow_row, opt_text,
    terminated_row, text_builder_for, texts, wide_row, Row,
};
use crate::utf16::{decode_utf16, push_utf16};
use odbc_api::buffers::{AnyColumnBufferSlice, TextColumnSlice};
use odbc_api::DataType;
use vstd::prelude::*;
use vstd::slice::slice_subrange;

verus! {

/// The encoding in which the text of a column is asked for.
#[derive(Debug, Clone, Copy, PartialEq, Eq, Structural)]
pub enum TextEncoding {
    /// Narrow text. Right where the narrow encoding of the system is UTF-8.
    Utf8,
    /// Wide text. Right everywhere, and needed where the narrow encoding depends on the locale.
    Utf16,
}

/// Asks for the text as UTF-16 and hands it on as UTF-8.
#[derive(Debug, Clone, Copy, PartialEq, Eq, Structural)]
pub struct WideText {
    /// Maximum string length in 16 bit units, the terminating zero not counted.
    pub max_str_len: usize,
}

impl WideText {
    pub fn new(max_str_len: usize) -> (r: Self)
        ensures
            r == (WideText { max_str_len }),
    {
        WideText { max_str_len }
    }
}

/// Asks for the text as UTF-8 and relies on the indicators for the length of each value.
#[derive(Debug, Clone, Copy, PartialEq, Eq, Structural)]
pub struct NarrowText {
    /// Maximum string length in bytes, the terminating zero not counted.
    pub max_str_len: usize,
}

impl NarrowText {
    pub fn new(max_str_len: usize) -> (r: Self)
        ensures
            r == (NarrowText { max_str_len }),
    {
        NarrowText { max_str_len }
    }
}

/// Asks for the text as UTF-8 and looks for the terminating zero of each value, for drivers
/// whose indicators cannot be relied on.
#[derive(Debug, Clone, Copy, PartialEq, Eq, Structural)]
pub struct NarrowUseTerminatingZero {
    /// Maximum string length in bytes, the terminating zero not counted.
    pub max_str_len: usize,
}

impl NarrowUseTerminatingZero {
    pub fn new(max_str_len: usize) -> (r: Self)
        ensures
            r == (NarrowUseTerminatingZero { max_str_len }),
    {
        NarrowUseTerminatingZero { max_str_len }
    }
}

/// The three ways to read a text column.
#[derive(Debug, Clone, Copy, PartialEq, Eq, Structural)]
pub enum TextStrategy {
    Wide(WideText),
    Narrow(NarrowText),
    NarrowTerminatingZero(NarrowUseTerminatingZero),
}

/// The strategy for text asked for as UTF-16 with at most `u16_len` units in a value.
pub fn wide_text_strategy(u16_len: usize) -> (r: TextStrategy)
    ensures
        r == TextStrategy::Wide(WideText { max_str_len: u16_len }),
{
    TextStrategy::Wide(WideText::new(u16_len))
}

/// The strategy for text asked for as UTF-8 with at most `octet_len` bytes in a value. Where
/// the indicators are taken for garbage, values are read up to their terminating zero, and an
/// empty string cannot be told from NULL: everything is a string.
pub fn narrow_text_strategy(octet_len: usize, assume_indicators_are_memory_garbage: bool) -> (r:
    TextStrategy)
    ensures
        r == if assume_indicators_are_memory_garbage {
            TextStrategy::NarrowTerminatingZero(NarrowUseTerminatingZero { max_str_len: octet_len })
        } else {
            TextStrategy::Narrow(NarrowText { max_str_len: octet_len })
        },
{
    if assume_indicators_are_memory_garbage {
        TextStrategy::NarrowTerminatingZero(NarrowUseTerminatingZero::new(octet_len))
    } else {
        TextStrategy::Narrow(NarrowText::new(octet_len))
    }
}

/// The length that `sql_type` itself tells for its text in `encoding`, in bytes or in 16 bit
/// units: what `odbc_api` computes from the type, where that fits a `usize`.
pub open spec fn length_of_type(sql_type: DataType, encoding: TextEncoding) -> Option<nat> {
    if !lengths_in_range(sql_type) {
        None
    } else {
        match encoding {
            TextEncoding::Utf8 => utf8_len(sql_type),
            TextEncoding::Utf16 => utf16_len(sql_type),
        }
    }
}

/// The length of the buffer once the display size has been asked for: the length that the
/// type tells, else the display size that the driver reported.
pub open spec fn length_found<E>(
    sql_type: DataType,
    type_len: Option<nat>,
    display_size: Result<Option<isize>, E>,
) -> Result<Option<nat>, Error<E>> {
    match type_len {
        Some(len) => Ok(Some(len)),
        None => match display_size {
            Err(source) => Err(Error::UnknownStringLength { sql_type, source }),
            Ok(None) => Ok(None),
            Ok(Some(size)) => if size < 1 {
                Err(Error::InvalidDisplaySize(size))
            } else {
                Ok(Some(size as nat))
            },
        },
    }
}

/// The length of the buffer under the limit that the caller has set, if any.
pub open spec fn length_limited<E>(sql_type: DataType, len: Option<nat>, limit: Option<usize>) -> Result<
    nat,
    Error<E>,
> {
    match (len, limit) {
        (None, None) => Err(Error::ZeroSizedColumn { sql_type }),
        (None, Some(limit)) => Ok(limit as nat),
        (Some(len), None) => Ok(len),
        (Some(len), Some(limit)) => Ok(if len <= limit { len } else { limit as nat }),
    }
}

/// The strategy for text of at most `len` bytes or units in `encoding`.
pub open spec fn strategy_for(
    encoding: TextEncoding,
    len: nat,
    assume_indicators_are_memory_garbage: bool,
) -> TextStrategy {
    match encoding {
        TextEncoding::Utf16 => TextStrategy::Wide(WideText { max_str_len: len as usize }),
        TextEncoding::Utf8 => if assume_indicators_are_memory_garbage {
            TextStrategy::NarrowTerminatingZero(
                NarrowUseTerminatingZero { max_str_len: len as usize },
            )
        } else {
            TextStrategy::Narrow(NarrowText { max_str_len: len as usize })
        },
    }
}

/// The text strategy of a column, given the length that its type tells and the answer of the
/// driver to the question for its display size.
pub open spec fn text_strategy_chosen<E>(
    sql_type: DataType,
    encoding: TextEncoding,
    type_len: Option<nat>,
    display_size: Result<Option<isize>, E>,
    max_text_size: Option<usize>,
    assume_indicators_are_memory_garbage: bool,
) -> Result<TextStrategy, Error<E>> {
    match length_found(sql_type, type_len, display_size) {
        Err(e) => Err(e),
        Ok(found) => match length_limited::<E>(sql_type, found, max_text_size) {
            Err(e) => Err(e),
            Ok(len) => Ok(strategy_for(encoding, len, assume_indicators_are_memory_garbage)),
        },
    }
}

/// The length that `sql_type` itself tells for its text in `encoding`.
pub fn text_length_of_type(sql_type: &DataType, encoding: TextEncoding) -> (r: Option<usize>)
    ensures
        opt_nat(r) == length_of_type(*sql_type, encoding),
        r is Some ==> r->Some_0 > 0,
{
    let size: Option<usize> = sql_column_size(sql_type);
    let code: i16 = sql_type_code(sql_type);
    let digits: i16 = sql_decimal_digits(sql_type);
    let size_fits: bool = match size {
        Some(n) => n <= usize::MAX / 4,
        None => true,
    };
    let digits_fit: bool = !(code == SQL_TIME || code == SQL_TIMESTAMP) || digits >= 0;
    if size_fits && digits_fit {
        match encoding {
            TextEncoding::Utf8 => sql_utf8_len(sql_type),
            TextEncoding::Utf16 => sql_utf16_len(sql_type),
        }
    } else {
        None
    }
}

/// Chooses how a text column is read once everything about it is known: `type_len` is the
/// length that its SQL type tells, `display_size` what the driver answered when asked for the
/// display size of the column (of no account where the type tells a length).
pub fn text_strategy_from<E>(
    sql_type: DataType,
    encoding: TextEncoding,
    type_len: Option<usize>,
    display_size: Result<Option<isize>, E>,
    max_text_size: Option<usize>,
    assume_indicators_are_memory_garbage: bool,
) -> (r: Result<TextStrategy, Error<E>>)
    ensures
        r == text_strategy_chosen(
            sql_type,
            encoding,
            opt_nat(type_len),
            display_size,
            max_text_size,
            assume_indicators_are_memory_garbage,
        ),
{
    let found: Option<usize> = match type_len {
        Some(len) => Some(len),
        None => match display_size {
            Err(source) => {
                return Err(Error::UnknownStringLength { sql_type, source });
            },
            Ok(None) => None,
            Ok(Some(size)) => {
                if size < 1 {
                    return Err(Error::InvalidDisplaySize(size));
                }
                Some(size as usize)
            },
        },
    };
    let len: usize = match (found, max_text_size) {
        (None, None) => {
            return Err(Error::ZeroSizedColumn { sql_type });
        },
        (None, Some(limit)) => limit,
        (Some(len), None) => len,
        (Some(len), Some(limit)) => if len <= limit { len } else { limit },
    };
    Ok(
        match encoding {
            TextEncoding::Utf16 => wide_text_strategy(len),
            TextEncoding::Utf8 => narrow_text_strategy(len, assume_indicators_are_memory_garbage),
        },
    )
}

/// True where `decided` is what choosing a text strategy may give: what follows from the
/// length that the type tells, or, where it tells none, from one of the `answers` that the
/// driver may give when asked for the display size of the column.
pub open spec fn text_strategy_decided<E>(
    decided: Result<TextStrategy, Error<E>>,
    sql_type: DataType,
    encoding: TextEncoding,
    answers: spec_fn(Result<Option<isize>, E>) -> bool,
    max_text_size: Option<usize>,
    assume_indicators_are_memory_garbage: bool,
) -> bool {
    if length_of_type(sql_type, encoding) is Some {
        decided == text_strategy_chosen::<E>(
            sql_type,
            encoding,
            length_of_type(sql_type, encoding),
            Ok(None),
            max_text_size,
            assume_indicators_are_memory_garbage,
        )
    } else {
        exists|answer: Result<Option<isize>, E>|
            #[trigger] answers(answer) && decided == text_strategy_chosen(
                sql_type,
                encoding,
                None,
                answer,
                max_text_size,
                assume_indicators_are_memory_garbage,
            )
    }
}

/// Decides whether a column is asked for as narrow or as wide text, and how long its buffer
/// is: as long as the SQL type tells; where it tells nothing, as long as the display size for
/// which the driver is then asked, and only then; and never longer than `max_text_size`.
pub fn choose_text_strategy<E, F: FnOnce() -> Result<Option<isize>, E>>(
    sql_type: DataType,
    encoding: TextEncoding,
    lazy_display_size: F,
    max_text_size: Option<usize>,
    assume_indicators_are_memory_garbage: bool,
) -> (r: Result<TextStrategy, Error<E>>)
    requires
        length_of_type(sql_type, encoding) is None ==> call_requires(lazy_display_size, ()),
    ensures
        text_strategy_decided(
            r,
            sql_type,
            encoding,
            |answer: Result<Option<isize>, E>| call_ensures(lazy_display_size, (), answer),
            max_text_size,
            assume_indicators_are_memory_garbage,
        ),
{
    let type_len: Option<usize> = text_length_of_type(&sql_type, encoding);
    match type_len {
        Some(_) => text_strategy_from(
            sql_type,
            encoding,
            type_len,
            Ok(None),
            max_text_size,
            assume_indicators_are_memory_garbage,
        ),
        None => {
            let ghost answers = |answer: Result<Option<isize>, E>|
                call_ensures(lazy_display_size, (), answer);
            let answer: Result<Option<isize>, E> = lazy_display_size();
            assert(answers(answer));
            text_strategy_from(
                sql_type,
                encoding,
                None,
                answer,
                max_text_size,
                assume_indicators_are_memory_garbage,
            )
        },
    }
}

/// True where `filled` is the array that gathering `rows` gives, or the fault that stops it.
pub open spec fn filled_with(filled: Result<ArrowColumn, MappingError>, rows: Seq<Row>) -> bool {
    gathered(
        match filled {
            Ok(column) => Ok(column_text(column)),
            Err(e) => Err(e),
        },
        rows,
    )
}

/// True where every valid row of the slice has an indicator that ODBC defines.
pub open spec fn narrow_trusted(s: TextColumnSlice<'_, u8>) -> bool {
    forall|i: int| 0 <= i < narrow_rows(s) ==> (#[trigger] narrow_value(s, i)) is Some
}

/// True where every valid row of the slice has an indicator that ODBC defines.
pub open spec fn wide_trusted(s: TextColumnSlice<'_, u16>) -> bool {
    forall|i: int| 0 <= i < wide_rows(s) ==> (#[trigger] wide_value(s, i)) is Some
}

/// The rows of a narrow slice, each as long as its indicator tells.
pub open spec fn narrow_read(s: TextColumnSlice<'_, u8>) -> Seq<Row> {
    Seq::new(narrow_rows(s), |i: int| narrow_row(narrow_value(s, i)->Some_0, i))
}

/// The rows of a wide slice, each as long as its indicator tells.
pub open spec fn wide_read(s: TextColumnSlice<'_, u16>) -> Seq<Row> {
    Seq::new(wide_rows(s), |i: int| wide_row(wide_value(s, i)->Some_0, i))
}

/// The bytes that the buffer sets aside for row `i`, the terminating zero among them.
pub open spec fn chunk(s: TextColumnSlice<'_, u8>, i: int) -> Seq<u8> {
    narrow_raw(s).subrange(i * (narrow_max_len(s) + 1), (i + 1) * (narrow_max_len(s) + 1))
}

/// The rows of a narrow slice, each as long as its terminating zero tells.
pub open spec fn terminated_read(s: TextColumnSlice<'_, u8>) -> Seq<Row> {
    Seq::new(narrow_rows(s), |i: int| terminated_row(chunk(s, i), i))
}

impl ReadStrategy for NarrowText {
    open spec fn spec_buffer_desc(&self) -> BufferDesc {
        BufferDesc::Text { max_str_len: self.max_str_len }
    }

    /// The indicators are relied on.
    open spec fn reads(&self, column_view: AnyColumnBufferSlice<'_>) -> bool {
        narrow_slice(column_view) is Some ==> narrow_trusted(narrow_slice(column_view)->Some_0)
    }

    /// Every row is the text that its bytes are in UTF-8, or a null where the indicator says
    /// NULL.
    open spec fn fills(
        &self,
        column_view: AnyColumnBufferSlice<'_>,
        filled: Result<ArrowColumn, MappingError>,
    ) -> bool {
        match narrow_slice(column_view) {
            None => filled == Err::<ArrowColumn, MappingError>(MappingError::UnexpectedBuffer),
            Some(s) => filled_with(filled, narrow_read(s)),
        }
    }

    fn buffer_desc(&self) -> (r: BufferDesc) {
        BufferDesc::Text { max_str_len: self.max_str_len }
    }

    fn fill_arrow_array(&self, column_view: AnyColumnBufferSlice<'_>) -> (r: Result<
        ArrowColumn,
        MappingError,
    >) {
        let view = match as_text(column_view) {
            Some(view) => view,
            None => {
                return Err(MappingError::UnexpectedBuffer);
            },
        };
        let n: usize = narrow_len(&view);
        let mut builder = text_builder_for(n, self.max_str_len);
        let mut data: usize = 0;
        let ghost rows = narrow_read(view);
        let mut i: usize = 0;
        assert(rows.take(0) =~= Seq::<Row>::empty());
        assert(texts(rows.take(0)) =~= Seq::<Option<Seq<char>>>::empty());
        while i < n
            invariant
                i <= n,
                n == narrow_rows(view),
                narrow_slice(column_view) == Some(view),
                narrow_trusted(view),
                rows == narrow_read(view),
                forall|k: int| 0 <= k < i ==> !faulty(rows, k),
                builder_values(builder) == texts(rows.take(i as int)),
                data == data_len(builder_values(builder)),
                data <= max_data_len(),
            decreases n - i,
        {
            let value: Option<&[u8]> = narrow_get(&view, i);
            let text: Option<&str> = match value {
                None => None,
                Some(bytes) => match core::str::from_utf8(bytes) {
                    Ok(text) => Some(text),
                    Err(_) => {
                        assert(faulty(rows, i as int));
                        return Err(MappingError::InvalidUtf8 { row: i });
                    },
                },
            };
            assert(rows[i as int] == Ok::<Option<Seq<char>>, MappingError>(opt_text(text)));
            proof {
                lemma_texts_take(rows, i as int);
            }
            match append_text(&mut builder, data, text) {
                Some(d) => {
                    data = d;
                },
                None => {
                    assert(faulty(rows, i as int));
                    return Err(MappingError::TooMuchData { row: i });
                },
            }
            i = i + 1;
        }
        proof {
            assert(rows.take(n as int) =~= rows);
        }
        Ok(builder_finish(&mut builder))
    }
}

impl ReadStrategy for WideText {
    open spec fn spec_buffer_desc(&self) -> BufferDesc {
        BufferDesc::WText { max_str_len: self.max_str_len }
    }

    /// The indicators are relied on.
    open spec fn reads(&self, column_view: AnyColumnBufferSlice<'_>) -> bool {
        wide_slice(column_view) is Some ==> wide_trusted(wide_slice(column_view)->Some_0)
    }

    /// Every row is the text that its units are in UTF-16, or a null where the indicator says
    /// NULL.
    open spec fn fills(
        &self,
        column_view: AnyColumnBufferSlice<'_>,
        filled: Result<ArrowColumn, MappingError>,
    ) -> bool {
        match wide_slice(column_view) {
            None => filled == Err::<ArrowColumn, MappingError>(MappingError::UnexpectedBuffer),
            Some(s) => filled_with(filled, wide_read(s)),
        }
    }

    fn buffer_desc(&self) -> (r: BufferDesc) {
        BufferDesc::WText { max_str_len: self.max_str_len }
    }

    fn fill_arrow_array(&self, column_view: AnyColumnBufferSlice<'_>) -> (r: Result<
        ArrowColumn,
        MappingError,
    >) {
        let view = match as_wide_text(column_view) {
            Some(view) => view,
            None => {
                return Err(MappingError::UnexpectedBuffer);
            },
        };
        let n: usize = wide_len(&view);
        // A unit of UTF-16 can take up to three bytes in UTF-8. Mostly it takes one, and few
        // strings are as long as they may be, so the builder is left to grow where it must.
        let mut builder = text_builder_for(n, self.max_str_len);
        let mut data: usize = 0;
        // The text of one value at a time, turned from UTF-16 into UTF-8.
        let mut buf_utf8 = String::new();
        let ghost rows = wide_read(view);
        let mut i: usize = 0;
        assert(rows.take(0) =~= Seq::<Row>::empty());
        assert(texts(rows.take(0)) =~= Seq::<Option<Seq<char>>>::empty());
        while i < n
            invariant
                i <= n,
                n == wide_rows(view),
                wide_slice(column_view) == Some(view),
                wide_trusted(view),
                rows == wide_read(view),
                forall|k: int| 0 <= k < i ==> !faulty(rows, k),
                builder_values(builder) == texts(rows.take(i as int)),
                data == data_len(builder_values(builder)),
                data <= max_data_len(),
            decreases n - i,
        {
            buf_utf8.clear();
            let value: Option<&[u16]> = wide_get(&view, i);
            let text: Option<&str> = match value {
                None => None,
                Some(units) => {
                    if !push_utf16(&mut buf_utf8, units) {
                        assert(faulty(rows, i as int));
                        return Err(MappingError::InvalidUtf16 { row: i });
                    }
                    assert(buf_utf8@ =~= decode_utf16(units@));
                    Some(buf_utf8.as_str())
                },
            };
            assert(rows[i as int] == Ok::<Option<Seq<char>>, MappingError>(opt_text(text)));
            proof {
                lemma_texts_take(rows, i as int);
            }
            match append_text(&mut builder, data, text) {
                Some(d) => {
                    data = d;
                },
                None => {
                    assert(faulty(rows, i as int));
                    return Err(MappingError::TooMuchData { row: i });
                },
            }
            i = i + 1;
        }
        proof {
            assert(rows.take(n as int) =~= rows);
        }
        Ok(builder_finish(&mut builder))
    }
}

/// The first zero byte of a chunk is where it is found to be.
proof fn lemma_chunk_ends(chunk: Seq<u8>, end: int)
    requires
        ends_at(chunk, end),
    ensures
        exists|e: int| ends_at(chunk, e),
        (choose|e: int| ends_at(chunk, e)) == end,
{
    let e = choose|e: int| ends_at(chunk, e);
    assert(ends_at(chunk, e));
    if e < end {
        assert(chunk[e] != 0);
    }
    if end < e {
        assert(chunk[end] != 0);
    }
}

impl ReadStrategy for NarrowUseTerminatingZero {
    open spec fn spec_buffer_desc(&self) -> BufferDesc {
        BufferDesc::Text { max_str_len: self.max_str_len }
    }

    /// Nothing is relied on: the indicators are not looked at.
    open spec fn reads(&self, column_view: AnyColumnBufferSlice<'_>) -> bool {
        true
    }

    /// Every row is the text that the bytes before its first zero byte are in UTF-8, and no
    /// row is null. The buffer must have been bound with the length that the strategy asks
    /// for: the rows are found by that length.
    open spec fn fills(
        &self,
        column_view: AnyColumnBufferSlice<'_>,
        filled: Result<ArrowColumn, MappingError>,
    ) -> bool {
        match narrow_slice(column_view) {
            None => filled == Err::<ArrowColumn, MappingError>(MappingError::UnexpectedBuffer),
            Some(s) => if narrow_max_len(s) != self.max_str_len {
                filled == Err::<ArrowColumn, MappingError>(MappingError::UnexpectedBuffer)
            } else {
                filled_with(filled, terminated_read(s))
            },
        }
    }

    fn buffer_desc(&self) -> (r: BufferDesc) {
        BufferDesc::Text { max_str_len: self.max_str_len }
    }

    fn fill_arrow_array(&self, column_view: AnyColumnBufferSlice<'_>) -> (r: Result<
        ArrowColumn,
        MappingError,
    >) {
        let view = match as_text(column_view) {
            Some(view) => view,
            None => {
                return Err(MappingError::UnexpectedBuffer);
            },
        };
        if narrow_max_str_len(&view) != self.max_str_len {
            return Err(MappingError::UnexpectedBuffer);
        }
        let n: usize = narrow_len(&view);
        let mut builder = text_builder_for(n, self.max_str_len);
        let ghost rows = terminated_read(view);
        if n == 0 {
            assert(texts(rows) =~= Seq::<Option<Seq<char>>>::empty());
            return Ok(builder_finish(&mut builder));
        }
        // The values are not asked for one by one: that would rely on the indicators, and the
        // strategy is there for drivers whose indicators cannot be relied on.
        let raw: &[u8] = narrow_raw_values(&view);
        let raw_len: usize = raw.len();
        assert(self.max_str_len + 1 <= raw@.len()) by (nonlinear_arith)
            requires
                raw@.len() == (self.max_str_len + 1) * n,
                n >= 1,
        ;
        let stride: usize = self.max_str_len + 1;
        let mut data: usize = 0;
        let mut i: usize = 0;
        assert(rows.take(0) =~= Seq::<Row>::empty());
        assert(texts(rows.take(0)) =~= Seq::<Option<Seq<char>>>::empty());
        while i < n
            invariant
                i <= n,
                n == narrow_rows(view),
                narrow_slice(column_view) == Some(view),
                narrow_max_len(view) == self.max_str_len,
                stride == self.max_str_len + 1,
                raw@ == narrow_raw(view),
                raw@.len() == stride * n,
                raw@.len() == raw_len,
                rows == terminated_read(view),
                forall|k: int| 0 <= k < i ==> !faulty(rows, k),
                builder_values(builder) == texts(rows.take(i as int)),
                data == data_len(builder_values(builder)),
                data <= max_data_len(),
            decreases n - i,
        {
            assert(i * stride + stride <= stride * n && (i + 1) * stride == i * stride + stride)
                by (nonlinear_arith)
                requires
                    i < n,
            ;
            let start: usize = i * stride;
            let ghost bytes = chunk(view, i as int);
            assert(bytes =~= raw@.subrange(start as int, start + stride));
            let mut end: usize = 0;
            let mut found: bool = false;
            while end < stride && !found
                invariant
                    end <= stride,
                    start + stride <= raw@.len(),
                    raw@.len() == raw_len,
                    bytes == raw@.subrange(start as int, start + stride),
                    forall|j: int| 0 <= j < end ==> bytes[j] != 0,
                    found ==> end < stride && bytes[end as int] == 0,
                decreases stride - end + if found { 0int } else { 1int },
            {
                if raw[start + end] == 0 {
                    found = true;
                } else {
                    end = end + 1;
                }
            }
            if !found {
                assert forall|e: int| !ends_at(bytes, e) by {}
                assert(faulty(rows, i as int));
                return Err(MappingError::MissingTerminatingZero { row: i });
            }
            proof {
                lemma_chunk_ends(bytes, end as int);
            }
            let value: &[u8] = slice_subrange(raw, start, start + end);
            assert(value@ =~= bytes.take(end as int));
            let text: &str = match core::str::from_utf8(value) {
                Ok(text) => text,
                Err(_) => {
                    assert(faulty(rows, i as int));
                    return Err(MappingError::InvalidUtf8 { row: i });
                },
            };
            // The value is taken to be there. Where the indicators are garbage an empty string
            // cannot be told from NULL, and a string is right for a column that may hold NULL
            // and for one that may not.
            assert(rows[i as int] == Ok::<Option<Seq<char>>, MappingError>(Some(text@)));
            proof {
                lemma_texts_take(rows, i as int);
            }
            match append_text(&mut builder, data, Some(text)) {
                Some(d) => {
                    data = d;
                },
                None => {
                    assert(faulty(rows, i as int));
                    return Err(MappingError::TooMuchData { row: i });
                },
            }
            i = i + 1;
        }
        proof {
            assert(rows.take(n as int) =~= rows);
        }
        Ok(builder_finish(&mut builder))
    }
}

impl ReadStrategy for TextStrategy {
    open spec fn spec_buffer_desc(&self) -> BufferDesc {
        match self {
            TextStrategy::Wide(strategy) => strategy.spec_buffer_desc(),
            TextStrategy::Narrow(strategy) => strategy.spec_buffer_desc(),
            TextStrategy::NarrowTerminatingZero(strategy) => strategy.spec_buffer_desc(),
        }
    }

    open spec fn reads(&self, column_view: AnyColumnBufferSlice<'_>) -> bool {
        match self {
            TextStrategy::Wide(strategy) => strategy.reads(column_view),
            TextStrategy::Narrow(strategy) => strategy.reads(column_view),
            TextStrategy::NarrowTerminatingZero(strategy) => strategy.reads(column_view),
        }
    }

    open spec fn fills(
        &self,
        column_view: AnyColumnBufferSlice<'_>,
        filled: Result<ArrowColumn, MappingError>,
    ) -> bool {
        match self {
            TextStrategy::Wide(strategy) => strategy.fills(column_view, filled),
            TextStrategy::Narrow(strategy) => strategy.fills(column_view, filled),
            TextStrategy::NarrowTerminatingZero(strategy) => strategy.fills(column_view, filled),
        }
    }

    fn buffer_desc(&self) -> (r: BufferDesc) {
        match self {
            TextStrategy::Wide(strategy) => strategy.buffer_desc(),
            TextStrategy::Narrow(strategy) => strategy.buffer_desc(),
            TextStrategy::NarrowTerminatingZero(strategy) => strategy.buffer_desc(),
        }
    }

    fn fill_arrow_array(&self, column_view: AnyColumnBufferSlice<'_>) -> (r: Result<
        ArrowColumn,
        MappingError,
    >) {
        match self {
            TextStrategy::Wide(strategy) => strategy.fill_arrow_array(column_view),
            TextStrategy::Narrow(strategy) => strategy.fill_arrow_array(column_view),
            TextStrategy::NarrowTerminatingZero(strategy) => strategy.fill_arrow_array(
                column_view,
            ),
        }
    }
}

/// The buffer of a text column is as long as its SQL type tells where no limit is set, and as
/// long as the limit where that is shorter. Where neither the type nor the driver tells a
/// length and no limit is set, there is no strategy, and the error says that the column has
/// no size.
pub proof fn lemma_text_sizing<E>(
    sql_type: DataType,
    encoding: TextEncoding,
    len: usize,
    limit: usize,
    display_size: Result<Option<isize>, E>,
    assume_indicators_are_memory_garbage: bool,
)
    ensures
        text_strategy_chosen(
            sql_type,
            encoding,
            Some(len as nat),
            display_size,
            None,
            assume_indicators_are_memory_garbage,
        ) == Ok::<TextStrategy, Error<E>>(
            strategy_for(encoding, len as nat, assume_indicators_are_memory_garbage),
        ),
        limit < len ==> text_strategy_chosen(
            sql_type,
            encoding,
            Some(len as nat),
            display_size,
            Some(limit),
            assume_indicators_are_memory_garbage,
        ) == Ok::<TextStrategy, Error<E>>(
            strategy_for(encoding, limit as nat, assume_indicators_are_memory_garbage),
        ),
        text_strategy_chosen::<E>(
            sql_type,
            encoding,
            None,
            Ok(None),
            None,
            assume_indicators_are_memory_garbage,
        ) == Err::<TextStrategy, Error<E>>(Error::ZeroSizedColumn { sql_type }),
        strategy_for(
            encoding,
            len as nat,
            assume_indicators_are_memory_garbage,
        ).spec_buffer_desc() == match encoding {
            TextEncoding::Utf8 => BufferDesc::Text { max_str_len: len },
            TextEncoding::Utf16 => BufferDesc::WText { max_str_len: len },
        },
{
}

/// Where the indicators are not looked at, no value of the array is null, whatever the
/// indicators say.
pub proof fn lemma_terminated_rows_are_never_null(
    strategy: NarrowUseTerminatingZero,
    column_view: AnyColumnBufferSlice<'_>,
    column: ArrowColumn,
)
    requires
        strategy.fills(column_view, Ok(column)),
    ensures
        forall|i: int| 0 <= i < column_text(column).len() ==> column_text(column)[i] is Some,
{
    let view = narrow_slice(column_view)->Some_0;
    let rows = terminated_read(view);
    assert forall|i: int| 0 <= i < column_text(column).len() implies column_text(column)[i]
        is Some by {
        assert(!faulty(rows, i));
        assert(rows[i] is Ok);
        assert(texts(rows)[i] == rows[i]->Ok_0);
    }
}

/// Every row of a text column that could be read is in the array, at its place: the array
/// has as many values as the column has rows.
pub proof fn lemma_filled_row_for_row(filled: Result<ArrowColumn, MappingError>, rows: Seq<Row>)
    requires
        filled_with(filled, rows),
        filled is Ok,
    ensures
        column_text(filled->Ok_0).len() == rows.len(),
        forall|i: int|
            0 <= i < rows.len() ==> (#[trigger] rows[i]) == Ok::<Option<Seq<char>>, MappingError>(
                column_text(filled->Ok_0)[i],
            ),
{
    assert forall|i: int| 0 <= i < rows.len() implies (#[trigger] rows[i]) == Ok::<
        Option<Seq<char>>,
        MappingError,
    >(column_text(filled->Ok_0)[i]) by {
        assert(!faulty(rows, i));
    }
}

} // verus!
