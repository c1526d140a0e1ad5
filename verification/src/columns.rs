//! What the library takes from `arrow`: the builder that text values are appended to, and the
//! array that it finishes into.
//!
//! Nothing in this file is proved. Each function states what the `arrow` function it calls is
//! documented to do, over the names declared here.
use vstd::prelude::*;
use vstd::utf8::*;

verus! {

/// A finished Arrow array, one column of a record batch. The array is there for the caller
/// to take: it goes into the record batch as it is.
#[verifier::external_body]
pub struct ArrowColumn {
    pub array: arrow::array::ArrayRef,
}

/// Arrow's `StringBuilder`: the values of a `Utf8` array in the making.
#[verifier::external_body]
pub struct TextBuilder {
    inner: arrow::array::builder::StringBuilder,
}

/// The number of values in a column, as `Array::len` returns it.
pub uninterp spec fn column_len(c: ArrowColumn) -> nat;

/// The values of a `Utf8` column, in order, a null as `None`.
pub uninterp spec fn column_text(c: ArrowColumn) -> Seq<Option<Seq<char>>>;

/// The values appended to a builder since it was made or last finished, in order, a null as
/// `None`.
pub uninterp spec fn builder_values(b: TextBuilder) -> Seq<Option<Seq<char>>>;

/// The number of bytes that the values of a `Utf8` array take in its data buffer.
pub open spec fn data_len(values: Seq<Option<Seq<char>>>) -> nat
    decreases values.len(),
{
    if values.len() == 0 {
        0
    } else {
        data_len(values.drop_last()) + match values.last() {
            Some(s) => encode_utf8(s).len(),
            None => 0,
        }
    }
}

/// The most bytes that the data buffer of a `Utf8` array can hold: its offsets are `i32`.
pub open spec fn max_data_len() -> nat {
    0x7fff_ffff
}

/// Calls `StringBuilder::with_capacity`, which reserves room for `item_capacity + 1` offsets of
/// four bytes and for `data_capacity` bytes, and panics where either is more than `isize::MAX`
/// bytes.
#[verifier::external_body]
pub(crate) fn builder_with_capacity(item_capacity: usize, data_capacity: usize) -> (r: TextBuilder)
    requires
        (item_capacity + 1) * 4 <= isize::MAX,
        data_capacity <= isize::MAX,
    ensures
        builder_values(r) == Seq::<Option<Seq<char>>>::empty(),
{
    let inner = arrow::array::builder::StringBuilder::with_capacity(item_capacity, data_capacity);
    TextBuilder { inner }
}

/// Calls `StringBuilder::append_value`, which panics where the data would grow beyond what an
/// `i32` offset can address.
#[verifier::external_body]
pub(crate) fn builder_append_value(b: &mut TextBuilder, value: &str)
    requires
        data_len(builder_values(*old(b))) + encode_utf8(value@).len() <= max_data_len(),
    ensures
        builder_values(*final(b)) == builder_values(*old(b)).push(Some(value@)),
{
    b.inner.append_value(value)
}

/// Calls `StringBuilder::append_null`.
#[verifier::external_body]
pub(crate) fn builder_append_null(b: &mut TextBuilder)
    ensures
        builder_values(*final(b)) == builder_values(*old(b)).push(None),
{
    b.inner.append_null()
}

/// Calls `StringBuilder::finish`, which hands out the values appended so far as an array and
/// leaves the builder empty.
#[verifier::external_body]
pub(crate) fn builder_finish(b: &mut TextBuilder) -> (r: ArrowColumn)
    ensures
        column_text(r) == builder_values(*old(b)),
        column_len(r) == builder_values(*old(b)).len(),
        builder_values(*final(b)) == Seq::<Option<Seq<char>>>::empty(),
{
    ArrowColumn { array: std::sync::Arc::new(b.inner.finish()) }
}

} // verus!
