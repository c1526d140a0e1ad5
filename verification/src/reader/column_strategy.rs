//! Which strategy reads a column, decided by the Arrow type that the schema gives it.
use crate::buffer::BufferDesc;
use crate::driver::{column_size, sql_column_size};
use crate::error::Error;
use crate::reader::read_strategy::ReadStrategy;
use crate::reader::text::{
    choose_text_strategy, length_limited, length_of_type, text_strategy_decided, TextEncoding,
    TextStrategy,
};
use crate::schema::{Field, LogicalType, TimeUnit};
use odbc_api::DataType;
use vstd::prelude::*;

verus! {

/// Limits on the buffers that a reader allocates, and how it deals with drivers that fill them
/// badly.
#[derive(Debug, Clone, Copy, PartialEq, Eq, Structural)]
pub struct BufferAllocationOptions {
    /// The most bytes or 16 bit units that are set aside for one value of a text column.
    /// Without it a column such as `VARCHAR(MAX)` asks for as much as the driver reports.
    pub max_text_size: Option<usize>,
    /// The most bytes that are set aside for one value of a binary column.
    pub max_binary_size: Option<usize>,
    /// Whether a buffer that cannot be allocated is reported as an error. The alternative is
    /// faster, and ends the process where there is not enough memory.
    pub fallible_allocations: bool,
    /// Whether the indicators that the driver fills in are taken for garbage. Narrow text is
    /// then read up to its terminating zero, and no value of it is NULL.
    pub assume_indicators_are_memory_garbage: bool,
}

impl Default for BufferAllocationOptions {
    fn default() -> (r: Self)
        ensures
            r == (BufferAllocationOptions {
                max_text_size: None,
                max_binary_size: None,
                fallible_allocations: false,
                assume_indicators_are_memory_garbage: false,
            }),
    {
        BufferAllocationOptions {
            max_text_size: None,
            max_binary_size: None,
            fallible_allocations: false,
            assume_indicators_are_memory_garbage: false,
        }
    }
}

/// The element types that are handed on as the driver delivers them.
#[derive(Debug, Clone, Copy, PartialEq, Eq, Structural)]
pub enum NumericType {
    Int8,
    Int16,
    Int32,
    Int64,
    UInt8,
    Float32,
    Float64,
}

/// How a column is read. Each strategy holds what it needs to know to describe its buffer.
#[derive(Debug, Clone, Copy, PartialEq, Eq, Structural)]
pub enum ColumnStrategy {
    /// Bits, some of which may be NULL.
    NullableBoolean,
    /// Bits without indicators: no row needs to be looked at for NULL.
    NonNullableBoolean,
    /// Numbers that Arrow holds as ODBC delivers them.
    Numeric { element: NumericType, nullable: bool },
    /// Dates, each turned into its number of days since the epoch.
    Date { nullable: bool },
    /// Timestamps, each turned into its distance from the epoch in `unit`.
    Timestamp { unit: TimeUnit, nullable: bool },
    /// Decimals, fetched as text and turned into integers scaled by `scale` digits.
    Decimal { nullable: bool, precision: u8, scale: i16 },
    /// Binary values of `len` bytes each.
    FixedSizedBinary { nullable: bool, len: usize },
    /// Binary values of up to `max_len` bytes.
    Binary { nullable: bool, max_len: usize },
    /// Text.
    Text(TextStrategy),
}

impl ColumnStrategy {
    /// The buffer that the strategy wants bound to its column.
    pub open spec fn spec_buffer_desc(self) -> BufferDesc {
        match self {
            ColumnStrategy::NullableBoolean => BufferDesc::Bit { nullable: true },
            ColumnStrategy::NonNullableBoolean => BufferDesc::Bit { nullable: false },
            ColumnStrategy::Numeric { element, nullable } => match element {
                NumericType::Int8 => BufferDesc::I8 { nullable },
                NumericType::Int16 => BufferDesc::I16 { nullable },
                NumericType::Int32 => BufferDesc::I32 { nullable },
                NumericType::Int64 => BufferDesc::I64 { nullable },
                NumericType::UInt8 => BufferDesc::U8 { nullable },
                NumericType::Float32 => BufferDesc::F32 { nullable },
                NumericType::Float64 => BufferDesc::F64 { nullable },
            },
            ColumnStrategy::Date { nullable } => BufferDesc::Date { nullable },
            ColumnStrategy::Timestamp { nullable, .. } => BufferDesc::Timestamp { nullable },
            ColumnStrategy::Decimal { precision, .. } => BufferDesc::Text {
                max_str_len: (precision + 2) as usize,
            },
            ColumnStrategy::FixedSizedBinary { len, .. } => BufferDesc::Binary { max_bytes: len },
            ColumnStrategy::Binary { max_len, .. } => BufferDesc::Binary { max_bytes: max_len },
            ColumnStrategy::Text(strategy) => strategy.spec_buffer_desc(),
        }
    }

    /// Describes the buffer that is bound to the column. A decimal is fetched as text with
    /// room for its digits, a sign and a point.
    pub fn buffer_desc(&self) -> (r: BufferDesc)
        ensures
            r == self.spec_buffer_desc(),
    {
        match self {
            ColumnStrategy::NullableBoolean => BufferDesc::Bit { nullable: true },
            ColumnStrategy::NonNullableBoolean => BufferDesc::Bit { nullable: false },
            ColumnStrategy::Numeric { element, nullable } => match element {
                NumericType::Int8 => BufferDesc::I8 { nullable: *nullable },
                NumericType::Int16 => BufferDesc::I16 { nullable: *nullable },
                NumericType::Int32 => BufferDesc::I32 { nullable: *nullable },
                NumericType::Int64 => BufferDesc::I64 { nullable: *nullable },
                NumericType::UInt8 => BufferDesc::U8 { nullable: *nullable },
                NumericType::Float32 => BufferDesc::F32 { nullable: *nullable },
                NumericType::Float64 => BufferDesc::F64 { nullable: *nullable },
            },
            ColumnStrategy::Date { nullable } => BufferDesc::Date { nullable: *nullable },
            ColumnStrategy::Timestamp { nullable, .. } => BufferDesc::Timestamp {
                nullable: *nullable,
            },
            ColumnStrategy::Decimal { precision, .. } => {
                let digits: usize = *precision as usize;
                BufferDesc::Text { max_str_len: digits + 2 }
            },
            ColumnStrategy::FixedSizedBinary { len, .. } => BufferDesc::Binary { max_bytes: *len },
            ColumnStrategy::Binary { max_len, .. } => BufferDesc::Binary { max_bytes: *max_len },
            ColumnStrategy::Text(strategy) => strategy.buffer_desc(),
        }
    }
}

/// True for the Arrow types whose strategy depends on the SQL type of the column: the driver
/// is asked for it for these, and for no others.
pub open spec fn needs_sql_type(data_type: LogicalType) -> bool {
    data_type == LogicalType::Utf8 || data_type == LogicalType::Binary
}

/// The strategy for a column of an Arrow type that says all there is to know.
pub open spec fn plain_strategy<E>(data_type: LogicalType, nullable: bool) -> Result<
    ColumnStrategy,
    Error<E>,
> {
    match data_type {
        LogicalType::Boolean => Ok(
            if nullable {
                ColumnStrategy::NullableBoolean
            } else {
                ColumnStrategy::NonNullableBoolean
            },
        ),
        LogicalType::Int8 => Ok(ColumnStrategy::Numeric { element: NumericType::Int8, nullable }),
        LogicalType::Int16 => Ok(ColumnStrategy::Numeric { element: NumericType::Int16, nullable }),
        LogicalType::Int32 => Ok(ColumnStrategy::Numeric { element: NumericType::Int32, nullable }),
        LogicalType::Int64 => Ok(ColumnStrategy::Numeric { element: NumericType::Int64, nullable }),
        LogicalType::UInt8 => Ok(ColumnStrategy::Numeric { element: NumericType::UInt8, nullable }),
        LogicalType::Float32 => Ok(
            ColumnStrategy::Numeric { element: NumericType::Float32, nullable },
        ),
        LogicalType::Float64 => Ok(
            ColumnStrategy::Numeric { element: NumericType::Float64, nullable },
        ),
        LogicalType::Date32 => Ok(ColumnStrategy::Date { nullable }),
        LogicalType::Timestamp(unit) => Ok(ColumnStrategy::Timestamp { unit, nullable }),
        LogicalType::Decimal { precision, scale } => Ok(
            ColumnStrategy::Decimal { nullable, precision, scale },
        ),
        LogicalType::FixedSizeBinary(len) => Ok(ColumnStrategy::FixedSizedBinary { nullable, len }),
        unsupported => Err(Error::UnsupportedLogicalType(unsupported)),
    }
}

/// The strategy for a binary column of `sql_type`: its buffer is as long as the column size
/// of the type, and no longer than `max_binary_size`.
pub open spec fn binary_strategy_chosen<E>(
    sql_type: DataType,
    nullable: bool,
    max_binary_size: Option<usize>,
) -> Result<ColumnStrategy, Error<E>> {
    match length_limited::<E>(sql_type, column_size(sql_type), max_binary_size) {
        Ok(len) => Ok(ColumnStrategy::Binary { nullable, max_len: len as usize }),
        Err(e) => Err(e),
    }
}

/// A text strategy as the strategy of its column.
pub open spec fn as_column_strategy<E>(decided: Result<TextStrategy, Error<E>>) -> Result<
    ColumnStrategy,
    Error<E>,
> {
    match decided {
        Ok(strategy) => Ok(ColumnStrategy::Text(strategy)),
        Err(e) => Err(e),
    }
}

/// True where `chosen` is what choosing a strategy may give for a column whose strategy
/// depends on its SQL type, once the driver has answered `described` when asked for that
/// type. `sizes` are the answers that it may give when asked for the display size.
pub open spec fn chosen_by_sql_type<E>(
    chosen: Result<ColumnStrategy, Error<E>>,
    data_type: LogicalType,
    nullable: bool,
    described: Result<DataType, E>,
    sizes: spec_fn(Result<Option<isize>, E>) -> bool,
    options: BufferAllocationOptions,
    encoding: TextEncoding,
) -> bool {
    match described {
        Err(e) => chosen == Err::<ColumnStrategy, Error<E>>(Error::FailedToDescribeColumn(e)),
        Ok(sql_type) => if data_type == LogicalType::Binary {
            chosen == binary_strategy_chosen::<E>(sql_type, nullable, options.max_binary_size)
        } else {
            exists|decided: Result<TextStrategy, Error<E>>|
                {
                    &&& #[trigger] text_strategy_decided(
                        decided,
                        sql_type,
                        encoding,
                        sizes,
                        options.max_text_size,
                        options.assume_indicators_are_memory_garbage,
                    )
                    &&& chosen == as_column_strategy(decided)
                }
        },
    }
}

/// True where `chosen` is what choosing a strategy for the column `field` may give. `types`
/// are the answers that the driver may give when asked for the SQL type of the column, and
/// `sizes` those that it may give when asked for its display size.
pub open spec fn column_chosen<E>(
    chosen: Result<ColumnStrategy, Error<E>>,
    field: Field,
    types: spec_fn(Result<DataType, E>) -> bool,
    sizes: spec_fn(Result<Option<isize>, E>) -> bool,
    options: BufferAllocationOptions,
    encoding: TextEncoding,
) -> bool {
    if needs_sql_type(field.data_type) {
        exists|described: Result<DataType, E>|
            {
                &&& #[trigger] types(described)
                &&& chosen_by_sql_type(
                    chosen,
                    field.data_type,
                    field.nullable,
                    described,
                    sizes,
                    options,
                    encoding,
                )
            }
    } else {
        chosen == plain_strategy::<E>(field.data_type, field.nullable)
    }
}

/// The strategy for a column of an Arrow type that says all there is to know, and the error
/// for a type that no strategy fetches.
pub fn strategy_of_type<E>(data_type: LogicalType, nullable: bool) -> (r: Result<
    ColumnStrategy,
    Error<E>,
>)
    requires
        !needs_sql_type(data_type),
    ensures
        r == plain_strategy::<E>(data_type, nullable),
{
    match data_type {
        LogicalType::Boolean => Ok(
            if nullable {
                ColumnStrategy::NullableBoolean
            } else {
                ColumnStrategy::NonNullableBoolean
            },
        ),
        LogicalType::Int8 => Ok(ColumnStrategy::Numeric { element: NumericType::Int8, nullable }),
        LogicalType::Int16 => Ok(ColumnStrategy::Numeric { element: NumericType::Int16, nullable }),
        LogicalType::Int32 => Ok(ColumnStrategy::Numeric { element: NumericType::Int32, nullable }),
        LogicalType::Int64 => Ok(ColumnStrategy::Numeric { element: NumericType::Int64, nullable }),
        LogicalType::UInt8 => Ok(ColumnStrategy::Numeric { element: NumericType::UInt8, nullable }),
        LogicalType::Float32 => Ok(
            ColumnStrategy::Numeric { element: NumericType::Float32, nullable },
        ),
        LogicalType::Float64 => Ok(
            ColumnStrategy::Numeric { element: NumericType::Float64, nullable },
        ),
        LogicalType::Date32 => Ok(ColumnStrategy::Date { nullable }),
        LogicalType::Timestamp(unit) => Ok(ColumnStrategy::Timestamp { unit, nullable }),
        LogicalType::Decimal { precision, scale } => Ok(
            ColumnStrategy::Decimal { nullable, precision, scale },
        ),
        LogicalType::FixedSizeBinary(len) => Ok(ColumnStrategy::FixedSizedBinary { nullable, len }),
        unsupported => Err(Error::UnsupportedLogicalType(unsupported)),
    }
}

/// The strategy for a binary column of `sql_type`.
pub fn binary_strategy<E>(sql_type: DataType, nullable: bool, max_binary_size: Option<usize>) -> (r:
    Result<ColumnStrategy, Error<E>>)
    ensures
        r == binary_strategy_chosen::<E>(sql_type, nullable, max_binary_size),
{
    let max_len: usize = match (sql_column_size(&sql_type), max_binary_size) {
        (None, None) => {
            return Err(Error::ZeroSizedColumn { sql_type });
        },
        (None, Some(limit)) => limit,
        (Some(len), None) => len,
        (Some(len), Some(limit)) => if len <= limit { len } else { limit },
    };
    Ok(ColumnStrategy::Binary { nullable, max_len })
}

/// Chooses the strategy that reads the column `field`. The driver is asked for no more than
/// the strategy needs: for the SQL type of the column where the Arrow type is `Utf8` or
/// `Binary`, and for its display size where a text column has a SQL type that tells no
/// length.
pub fn choose_column_strategy<
    E,
    F: FnOnce() -> Result<DataType, E>,
    G: FnOnce() -> Result<Option<isize>, E>,
>(
    field: &Field,
    lazy_sql_type: F,
    lazy_display_size: G,
    options: BufferAllocationOptions,
    encoding: TextEncoding,
) -> (r: Result<ColumnStrategy, Error<E>>)
    requires
        needs_sql_type(field.data_type) ==> call_requires(lazy_sql_type, ()),
        field.data_type == LogicalType::Utf8 ==> forall|sql_type: DataType|
            #![trigger call_ensures(lazy_sql_type, (), Ok(sql_type))]
            call_ensures(lazy_sql_type, (), Ok(sql_type)) && length_of_type(sql_type, encoding)
                is None ==> call_requires(lazy_display_size, ()),
    ensures
        column_chosen(
            r,
            *field,
            |described: Result<DataType, E>| call_ensures(lazy_sql_type, (), described),
            |answer: Result<Option<isize>, E>| call_ensures(lazy_display_size, (), answer),
            options,
            encoding,
        ),
{
    let ghost types = |described: Result<DataType, E>| call_ensures(lazy_sql_type, (), described);
    let ghost sizes = |answer: Result<Option<isize>, E>|
        call_ensures(lazy_display_size, (), answer);
    match field.data_type {
        LogicalType::Utf8 => {
            let described: Result<DataType, E> = lazy_sql_type();
            match described {
                Err(e) => {
                    let chosen = Err(Error::FailedToDescribeColumn(e));
                    assert(chosen_by_sql_type(
                        chosen,
                        field.data_type,
                        field.nullable,
                        described,
                        sizes,
                        options,
                        encoding,
                    ));
                    assert(types(described));
                    chosen
                },
                Ok(sql_type) => {
                    let decided = choose_text_strategy(
                        sql_type,
                        encoding,
                        lazy_display_size,
                        options.max_text_size,
                        options.assume_indicators_are_memory_garbage,
                    );
                    let ghost was_decided = decided;
                    let chosen = match decided {
                        Ok(strategy) => Ok(ColumnStrategy::Text(strategy)),
                        Err(e) => Err(e),
                    };
                    assert(chosen == as_column_strategy(was_decided));
                    assert(chosen_by_sql_type(
                        chosen,
                        field.data_type,
                        field.nullable,
                        described,
                        sizes,
                        options,
                        encoding,
                    ));
                    assert(types(described));
                    chosen
                },
            }
        },
        LogicalType::Binary => {
            let described: Result<DataType, E> = lazy_sql_type();
            let chosen = match described {
                Err(e) => Err(Error::FailedToDescribeColumn(e)),
                Ok(sql_type) => binary_strategy(sql_type, field.nullable, options.max_binary_size),
            };
            assert(chosen_by_sql_type(
                chosen,
                field.data_type,
                field.nullable,
                described,
                sizes,
                options,
                encoding,
            ));
            assert(types(described));
            chosen
        },
        data_type => strategy_of_type(data_type, field.nullable),
    }
}

} // verus!
