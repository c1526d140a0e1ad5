//! What the rows of a text buffer hold, and how they are gathered into a `Utf8` array.
use crate::columns::{
    builder_append_null, builder_append_value, builder_values, builder_with_capacity, data_len,
    max_data_len, TextBuilder,
};
use crate::error::MappingError;
use crate::utf16::{decode_utf16, valid_utf16};
use vstd::prelude::*;
use vstd::string::*;
use vstd::utf8::*;

verus! {

/// A row read: a text, a NULL, or the reason why it is neither.
pub type Row = Result<Option<Seq<char>>, MappingError>;

/// What a row of a narrow buffer holds, given its value as the indicator delimits it.
pub open spec fn narrow_row(value: Option<Seq<u8>>, row: int) -> Row {
    match value {
        None => Ok(None),
        Some(bytes) => if valid_utf8(bytes) {
            Ok(Some(decode_utf8(bytes)))
        } else {
            Err(MappingError::InvalidUtf8 { row: row as usize })
        },
    }
}

/// What a row of a wide buffer holds, given its value as the indicator delimits it.
pub open spec fn wide_row(value: Option<Seq<u16>>, row: int) -> Row {
    match value {
        None => Ok(None),
        Some(units) => if valid_utf16(units) {
            Ok(Some(decode_utf16(units)))
        } else {
            Err(MappingError::InvalidUtf16 { row: row as usize })
        },
    }
}

/// True where the first zero byte of `chunk` is at index `end`.
pub open spec fn ends_at(chunk: Seq<u8>, end: int) -> bool {
    &&& 0 <= end < chunk.len()
    &&& chunk[end] == 0
    &&& forall|j: int| 0 <= j < end ==> chunk[j] != 0
}

/// What a row of a narrow buffer holds where the indicators are not looked at: the bytes of
/// its chunk up to the first zero byte. The row is never NULL.
pub open spec fn terminated_row(chunk: Seq<u8>, row: int) -> Row {
    if exists|end: int| ends_at(chunk, end) {
        let end = choose|end: int| ends_at(chunk, end);
        if valid_utf8(chunk.take(end)) {
            Ok(Some(decode_utf8(chunk.take(end))))
        } else {
            Err(MappingError::InvalidUtf8 { row: row as usize })
        }
    } else {
        Err(MappingError::MissingTerminatingZero { row: row as usize })
    }
}

/// The values of `rows` as an array holds them. Only the rows that were read count.
pub open spec fn texts(rows: Seq<Row>) -> Seq<Option<Seq<char>>> {
    Seq::new(
        rows.len(),
        |i: int|
            match rows[i] {
                Ok(value) => value,
                Err(_) => None,
            },
    )
}

/// True where the array cannot take row `k`: the row could not be read, or with it the data of
/// the array would outgrow its offsets.
pub open spec fn faulty(rows: Seq<Row>, k: int) -> bool {
    rows[k] is Err || data_len(texts(rows.take(k + 1))) > max_data_len()
}

/// Why the array cannot take row `k`, where it is faulty.
pub open spec fn fault_of(rows: Seq<Row>, k: int) -> MappingError {
    match rows[k] {
        Err(e) => e,
        Ok(_) => MappingError::TooMuchData { row: k as usize },
    }
}

/// True where `filled` is what gathering `rows` gives: their values in order where no row is
/// faulty, else the fault of the first row that is.
pub open spec fn gathered(filled: Result<Seq<Option<Seq<char>>>, MappingError>, rows: Seq<Row>) -> bool {
    match filled {
        Ok(values) => {
            &&& forall|k: int| 0 <= k < rows.len() ==> !faulty(rows, k)
            &&& values == texts(rows)
        },
        Err(e) => exists|k: int|
            {
                &&& 0 <= k < rows.len()
                &&& #[trigger] faulty(rows, k)
                &&& forall|j: int| 0 <= j < k ==> !faulty(rows, j)
                &&& e == fault_of(rows, k)
            },
    }
}

/// The data of an array grows by the bytes of the value appended.
pub proof fn lemma_data_len_push(values: Seq<Option<Seq<char>>>, value: Option<Seq<char>>)
    ensures
        data_len(values.push(value)) == data_len(values) + match value {
            Some(s) => encode_utf8(s).len(),
            None => 0,
        },
{
    assert(values.push(value).drop_last() =~= values);
}

/// The values of one more row are the values so far and the value of that row.
pub proof fn lemma_texts_take(rows: Seq<Row>, k: int)
    requires
        0 <= k < rows.len(),
    ensures
        texts(rows.take(k + 1)) == texts(rows.take(k)).push(texts(rows)[k]),
        texts(rows.take(rows.len() as int)) == texts(rows),
{
    assert(texts(rows.take(k + 1)) =~= texts(rows.take(k)).push(texts(rows)[k]));
    assert(rows.take(rows.len() as int) =~= rows);
}

/// The data of an array is no less than the data of its first values.
pub proof fn lemma_data_len_monotone(values: Seq<Option<Seq<char>>>, k: int)
    requires
        0 <= k <= values.len(),
    ensures
        data_len(values.take(k)) <= data_len(values),
    decreases values.len() - k,
{
    if k < values.len() {
        lemma_data_len_monotone(values, k + 1);
        assert(values.take(k + 1).drop_last() =~= values.take(k));
    } else {
        assert(values.take(k) =~= values);
    }
}

/// Gathering succeeds where it can, and only there: where every row could be read and the
/// data of all of them fits the offsets of the array.
pub proof fn lemma_gathers_where_all_fits(
    filled: Result<Seq<Option<Seq<char>>>, MappingError>,
    rows: Seq<Row>,
)
    requires
        gathered(filled, rows),
    ensures
        filled is Ok <==> (forall|i: int| 0 <= i < rows.len() ==> (#[trigger] rows[i]) is Ok)
            && data_len(texts(rows)) <= max_data_len(),
{
    if filled is Ok {
        assert forall|i: int| 0 <= i < rows.len() implies (#[trigger] rows[i]) is Ok by {
            assert(!faulty(rows, i));
        }
        if rows.len() > 0 {
            assert(!faulty(rows, rows.len() - 1));
            assert(rows.take(rows.len() as int) =~= rows);
        } else {
            assert(texts(rows).len() == 0);
        }
    } else {
        let k = choose|k: int|
            {
                &&& 0 <= k < rows.len()
                &&& #[trigger] faulty(rows, k)
                &&& forall|j: int| 0 <= j < k ==> !faulty(rows, j)
                &&& filled->Err_0 == fault_of(rows, k)
            };
        if rows[k] is Ok {
            lemma_data_len_monotone(texts(rows), k + 1);
            assert(texts(rows).take(k + 1) =~= texts(rows.take(k + 1)));
        }
    }
}

/// A builder with room for `rows` values of up to `max_str_len` bytes each, or with no room
/// set aside where that much cannot be asked for.
pub(crate) fn text_builder_for(rows: usize, max_str_len: usize) -> (r: TextBuilder)
    ensures
        builder_values(r) == Seq::<Option<Seq<char>>>::empty(),
{
    let most: usize = isize::MAX as usize;
    let items: usize = if rows < most / 4 {
        rows
    } else {
        0
    };
    let bytes: usize = match max_str_len.checked_mul(rows) {
        Some(n) => if n <= most {
            n
        } else {
            0
        },
        None => 0,
    };
    builder_with_capacity(items, bytes)
}

/// Appends `value` to the builder, a `None` as a null, unless the data of the array would
/// outgrow its offsets. `data` is the number of bytes that the builder holds, and the result
/// the number that it holds afterwards.
pub(crate) fn append_text(builder: &mut TextBuilder, data: usize, value: Option<&str>) -> (r: Option<usize>)
    requires
        data == data_len(builder_values(*old(builder))),
        data <= max_data_len(),
    ensures
        r is Some <==> data_len(builder_values(*old(builder)).push(opt_text(value))) <= max_data_len(),
        r is Some ==> builder_values(*final(builder)) == builder_values(*old(builder)).push(
            opt_text(value),
        ) && r->Some_0 == data_len(builder_values(*final(builder))),
        r is None ==> builder_values(*final(builder)) == builder_values(*old(builder)),
{
    proof {
        lemma_data_len_push(builder_values(*builder), opt_text(value));
    }
    match value {
        None => {
            builder_append_null(builder);
            Some(data)
        },
        Some(text) => {
            let len: usize = text.as_bytes().len();
            assert(len == encode_utf8(text@).len());
            if len > 0x7fff_ffff - data {
                None
            } else {
                builder_append_value(builder, text);
                Some(data + len)
            }
        },
    }
}

/// The view of an optional text.
pub open spec fn opt_text(o: Option<&str>) -> Option<Seq<char>> {
    match o {
        Some(s) => Some(s@),
        None => None,
    }
}

} // verus!
