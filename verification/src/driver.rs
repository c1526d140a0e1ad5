//! What the library takes from `odbc_api`: the SQL data type of a column and the slices through
//! which a bound text buffer is read after a fetch.
//!
//! Nothing in this file is proved. Each function states what the `odbc_api` function it calls is
//! documented to do, over the names declared here.
use odbc_api::buffers::{AnyColumnBufferSlice, TextColumnSlice};
use odbc_api::DataType;
use vstd::prelude::*;

verus! {

/// `odbc_api::DataType`, the relational type of a column as the driver reports it.
#[verifier::external_type_specification]
#[verifier::external_body]
pub struct ExDataType(DataType);

/// `odbc_api::buffers::AnyColumnBufferSlice`, the valid rows of one column of a bound buffer whose
/// element type is known at run time only.
#[verifier::external_type_specification]
#[verifier::external_body]
pub struct ExAnyColumnBufferSlice<'a>(AnyColumnBufferSlice<'a>);

/// `odbc_api::buffers::TextColumnSlice`, the valid rows of a bound text buffer with elements of
/// type `C`.
#[verifier::external_type_specification]
#[verifier::external_body]
#[verifier::reject_recursive_types(C)]
pub struct ExTextColumnSlice<'c, C>(TextColumnSlice<'c, C>);

/// The concise ODBC type code of `t`, as `DataType::data_type` returns it.
pub uninterp spec fn type_code(t: DataType) -> int;

/// The column size of `t`, as `DataType::column_size` returns it.
pub uninterp spec fn column_size(t: DataType) -> Option<nat>;

/// The decimal digits of `t`, as `DataType::decimal_digits` returns them.
pub uninterp spec fn decimal_digits(t: DataType) -> int;

/// The largest number of bytes a value of `t` takes as UTF-8, as `DataType::utf8_len` returns it.
pub uninterp spec fn utf8_len(t: DataType) -> Option<nat>;

/// The largest number of 16 bit units a value of `t` takes as UTF-16, as `DataType::utf16_len`
/// returns it.
pub uninterp spec fn utf16_len(t: DataType) -> Option<nat>;

/// The number of valid rows that `v` gives access to.
pub uninterp spec fn slice_rows(v: AnyColumnBufferSlice<'_>) -> nat;

/// The narrow text slice behind `v`, as `AnyColumnBufferSlice::as_text` returns it.
pub uninterp spec fn narrow_slice(v: AnyColumnBufferSlice<'_>) -> Option<TextColumnSlice<'_, u8>>;

/// The wide text slice behind `v`, as `AnyColumnBufferSlice::as_wide_text` returns it.
pub uninterp spec fn wide_slice(v: AnyColumnBufferSlice<'_>) -> Option<TextColumnSlice<'_, u16>>;

/// The number of valid rows of a narrow text slice.
pub uninterp spec fn narrow_rows(s: TextColumnSlice<'_, u8>) -> nat;

/// Row `i` of a narrow text slice as its indicator describes it. `None` where the indicator is
/// none that ODBC defines, so that `TextColumnSlice::get` would panic; `Some(None)` for NULL;
/// otherwise the bytes of the value without the terminating zero.
pub uninterp spec fn narrow_value(s: TextColumnSlice<'_, u8>, i: int) -> Option<Option<Seq<u8>>>;

/// The largest length of a value that the buffer behind a narrow text slice can hold, the
/// terminating zero not counted.
pub uninterp spec fn narrow_max_len(s: TextColumnSlice<'_, u8>) -> nat;

/// The bytes of the valid rows of a narrow text slice, each row padded to
/// `narrow_max_len(s) + 1` bytes.
pub uninterp spec fn narrow_raw(s: TextColumnSlice<'_, u8>) -> Seq<u8>;

/// The number of valid rows of a wide text slice.
pub uninterp spec fn wide_rows(s: TextColumnSlice<'_, u16>) -> nat;

/// Row `i` of a wide text slice as its indicator describes it, as `narrow_value` does for a
/// narrow one, in 16 bit units.
pub uninterp spec fn wide_value(s: TextColumnSlice<'_, u16>, i: int) -> Option<Option<Seq<u16>>>;

/// The view of an optional byte slice.
pub open spec fn opt_bytes(o: Option<&[u8]>) -> Option<Seq<u8>> {
    match o {
        Some(b) => Some(b@),
        None => None,
    }
}

/// The view of an optional slice of 16 bit units.
pub open spec fn opt_units(o: Option<&[u16]>) -> Option<Seq<u16>> {
    match o {
        Some(b) => Some(b@),
        None => None,
    }
}

/// The view of an optional length.
pub open spec fn opt_nat(o: Option<usize>) -> Option<nat> {
    match o {
        Some(n) => Some(n as nat),
        None => None,
    }
}

/// Calls `DataType::data_type` and returns the number in the code it gives.
#[verifier::external_body]
pub(crate) fn sql_type_code(t: &DataType) -> (r: i16)
    ensures
        r == type_code(*t),
{
    t.data_type().0
}

/// Calls `DataType::column_size`. A size that is there is not zero.
#[verifier::external_body]
pub(crate) fn sql_column_size(t: &DataType) -> (r: Option<usize>)
    ensures
        opt_nat(r) == column_size(*t),
        r is Some ==> r->Some_0 > 0,
{
    t.column_size().map(|n| n.get())
}

/// Calls `DataType::decimal_digits`.
#[verifier::external_body]
pub(crate) fn sql_decimal_digits(t: &DataType) -> (r: i16)
    ensures
        r == decimal_digits(*t),
{
    t.decimal_digits()
}

/// The ODBC type codes that the library tells apart, with the values that ODBC gives them.
pub const SQL_NUMERIC: i16 = 2;

pub const SQL_DECIMAL: i16 = 3;

pub const SQL_INTEGER: i16 = 4;

pub const SQL_SMALLINT: i16 = 5;

pub const SQL_FLOAT: i16 = 6;

pub const SQL_REAL: i16 = 7;

pub const SQL_DOUBLE: i16 = 8;

pub const SQL_DATE: i16 = 91;

pub const SQL_TIME: i16 = 92;

pub const SQL_TIMESTAMP: i16 = 93;

pub const SQL_BINARY: i16 = -2;

pub const SQL_VARBINARY: i16 = -3;

pub const SQL_LONGVARBINARY: i16 = -4;

pub const SQL_BIGINT: i16 = -5;

pub const SQL_TINYINT: i16 = -6;

pub const SQL_BIT: i16 = -7;

/// True where neither `DataType::utf8_len` nor `DataType::utf16_len` leaves the range of `usize`
/// on `t`: they multiply the column size by at most four or add two to it, and add at most twenty
/// to the decimal digits of a time or timestamp.
pub open spec fn lengths_in_range(t: DataType) -> bool {
    &&& column_size(t) is Some ==> column_size(t)->Some_0 <= usize::MAX / 4
    &&& (type_code(t) == SQL_TIME || type_code(t) == SQL_TIMESTAMP) ==> decimal_digits(t) >= 0
}

/// Calls `DataType::utf8_len`. A length that is there is not zero.
#[verifier::external_body]
pub(crate) fn sql_utf8_len(t: &DataType) -> (r: Option<usize>)
    requires
        lengths_in_range(*t),
    ensures
        opt_nat(r) == utf8_len(*t),
        r is Some ==> r->Some_0 > 0,
{
    t.utf8_len().map(|n| n.get())
}

/// Calls `DataType::utf16_len`. A length that is there is not zero.
#[verifier::external_body]
pub(crate) fn sql_utf16_len(t: &DataType) -> (r: Option<usize>)
    requires
        lengths_in_range(*t),
    ensures
        opt_nat(r) == utf16_len(*t),
        r is Some ==> r->Some_0 > 0,
{
    t.utf16_len().map(|n| n.get())
}

/// Calls `AnyColumnBufferSlice::as_text`. The slice it gives has the rows of `v`.
#[verifier::external_body]
pub(crate) fn as_text<'a>(v: AnyColumnBufferSlice<'a>) -> (r: Option<TextColumnSlice<'a, u8>>)
    ensures
        r == narrow_slice(v),
        r is Some ==> narrow_rows(r->Some_0) == slice_rows(v),
{
    v.as_text()
}

/// Calls `AnyColumnBufferSlice::as_wide_text`. The slice it gives has the rows of `v`.
#[verifier::external_body]
pub(crate) fn as_wide_text<'a>(v: AnyColumnBufferSlice<'a>) -> (r: Option<TextColumnSlice<'a, u16>>)
    ensures
        r == wide_slice(v),
        r is Some ==> wide_rows(r->Some_0) == slice_rows(v),
{
    v.as_wide_text()
}

/// Calls `TextColumnSlice::len`.
#[verifier::external_body]
pub(crate) fn narrow_len(s: &TextColumnSlice<'_, u8>) -> (r: usize)
    ensures
        r == narrow_rows(*s),
{
    s.len()
}

/// Calls `TextColumnSlice::get`, which panics on a row that is not valid and on an indicator that
/// ODBC does not define.
#[verifier::external_body]
pub(crate) fn narrow_get<'a>(s: &TextColumnSlice<'a, u8>, index: usize) -> (r: Option<&'a [u8]>)
    requires
        index < narrow_rows(*s),
        narrow_value(*s, index as int) is Some,
    ensures
        opt_bytes(r) == narrow_value(*s, index as int)->Some_0,
{
    s.get(index)
}

/// Calls `TextColumnSlice::max_len`.
#[verifier::external_body]
pub(crate) fn narrow_max_str_len(s: &TextColumnSlice<'_, u8>) -> (r: usize)
    ensures
        r == narrow_max_len(*s),
{
    s.max_len()
}

/// Calls `TextColumnSlice::raw_value_buffer`, which gives `max_len() + 1` bytes for each valid
/// row.
#[verifier::external_body]
pub(crate) fn narrow_raw_values<'a>(s: &TextColumnSlice<'a, u8>) -> (r: &'a [u8])
    ensures
        r@ == narrow_raw(*s),
        r@.len() == (narrow_max_len(*s) + 1) * narrow_rows(*s),
{
    s.raw_value_buffer()
}

/// Calls `TextColumnSlice::len`.
#[verifier::external_body]
pub(crate) fn wide_len(s: &TextColumnSlice<'_, u16>) -> (r: usize)
    ensures
        r == wide_rows(*s),
{
    s.len()
}

/// Calls `TextColumnSlice::get`, which panics on a row that is not valid and on an indicator that
/// ODBC does not define.
#[verifier::external_body]
pub(crate) fn wide_get<'a>(s: &TextColumnSlice<'a, u16>, index: usize) -> (r: Option<&'a [u16]>)
    requires
        index < wide_rows(*s),
        wide_value(*s, index as int) is Some,
    ensures
        opt_units(r) == wide_value(*s, index as int)->Some_0,
{
    s.get(index)
}

} // verus!
