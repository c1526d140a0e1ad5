//! The logical schema of a result set: one field with an Arrow type for each column.
use crate::driver::{
    column_size, decimal_digits, opt_nat, sql_column_size, sql_decimal_digits, sql_type_code,
    type_code, SQL_BIGINT, SQL_BINARY, SQL_BIT, SQL_DATE, SQL_DECIMAL, SQL_DOUBLE, SQL_FLOAT,
    SQL_INTEGER, SQL_LONGVARBINARY, SQL_NUMERIC, SQL_REAL, SQL_SMALLINT, SQL_TIMESTAMP,
    SQL_TINYINT, SQL_VARBINARY,
};
use crate::error::Error;
use odbc_api::DataType;
use vstd::prelude::*;

verus! {

/// The unit in which a timestamp counts from the epoch.
#[derive(Debug, Clone, Copy, PartialEq, Eq, Structural)]
pub enum TimeUnit {
    Second,
    Millisecond,
    Microsecond,
    Nanosecond,
}

/// The Arrow type of a column. The first group has a column strategy, the second has none.
#[derive(Debug, Clone, Copy, PartialEq, Eq, Structural)]
pub enum LogicalType {
    Boolean,
    Int8,
    Int16,
    Int32,
    Int64,
    UInt8,
    Float32,
    Float64,
    /// A fixed point number of `precision` digits, `scale` of them behind the point.
    Decimal { precision: u8, scale: i16 },
    /// Days since the epoch.
    Date32,
    Timestamp(TimeUnit),
    /// Binary values of one length in bytes.
    FixedSizeBinary(usize),
    Binary,
    Utf8,
    Null,
    UInt16,
    UInt32,
    UInt64,
    Float16,
    Date64,
    Time32,
    Time64,
    Duration,
    Interval,
    LargeBinary,
    LargeUtf8,
    List,
    FixedSizeList,
    LargeList,
    Struct,
    Union,
    Dictionary,
    /// Any type of Arrow that is not named here.
    Other,
}

/// One column of the output: its name, its type, and whether it may hold nulls.
#[derive(Debug, Clone, PartialEq, Eq)]
pub struct Field {
    pub name: String,
    pub data_type: LogicalType,
    pub nullable: bool,
}

/// What the driver tells of one column of the result set.
#[derive(Debug)]
pub struct ColumnDescriptor {
    pub name: String,
    pub data_type: DataType,
    pub nullable: bool,
}

/// The unit that keeps the digits which a timestamp has behind the point of its seconds.
pub open spec fn unit_of_precision(precision: int) -> TimeUnit {
    if precision == 0 {
        TimeUnit::Second
    } else if 1 <= precision <= 3 {
        TimeUnit::Millisecond
    } else if 4 <= precision <= 6 {
        TimeUnit::Microsecond
    } else {
        TimeUnit::Nanosecond
    }
}

/// The Arrow type for a column of the SQL type that has the ODBC type code `code`, with
/// `size` the precision of a number or the length of binary data (0 where the driver tells
/// none), and `digits` the scale of a number or the precision of a timestamp. In order:
///
/// | SQL type                                   | Arrow type                |
/// |--------------------------------------------|---------------------------|
/// | numeric or decimal, precision up to 38     | `Decimal`                 |
/// | integer, smallint, bigint, tinyint         | `Int32`, `16`, `64`, `8`  |
/// | real, or float with precision up to 24     | `Float32`                 |
/// | float with a higher precision, or double   | `Float64`                 |
/// | date                                       | `Date32`                  |
/// | timestamp                                  | `Timestamp`, by precision |
/// | bit                                        | `Boolean`                 |
/// | binary                                     | `FixedSizeBinary`         |
/// | varbinary, long varbinary                  | `Binary`                  |
/// | anything else                              | `Utf8`                    |
pub open spec fn logical_type_of(code: int, size: nat, digits: int) -> LogicalType {
    if (code == SQL_NUMERIC || code == SQL_DECIMAL) && size <= 38 {
        LogicalType::Decimal { precision: size as u8, scale: digits as i16 }
    } else if code == SQL_INTEGER {
        LogicalType::Int32
    } else if code == SQL_SMALLINT {
        LogicalType::Int16
    } else if code == SQL_BIGINT {
        LogicalType::Int64
    } else if code == SQL_TINYINT {
        LogicalType::Int8
    } else if code == SQL_REAL || (code == SQL_FLOAT && size <= 24) {
        LogicalType::Float32
    } else if code == SQL_FLOAT || code == SQL_DOUBLE {
        LogicalType::Float64
    } else if code == SQL_DATE {
        LogicalType::Date32
    } else if code == SQL_TIMESTAMP {
        LogicalType::Timestamp(unit_of_precision(digits))
    } else if code == SQL_BIT {
        LogicalType::Boolean
    } else if code == SQL_BINARY {
        LogicalType::FixedSizeBinary(size as usize)
    } else if code == SQL_VARBINARY || code == SQL_LONGVARBINARY {
        LogicalType::Binary
    } else {
        LogicalType::Utf8
    }
}

/// A column size, 0 where there is none.
pub open spec fn size_or_zero(size: Option<nat>) -> nat {
    match size {
        Some(n) => n,
        None => 0,
    }
}

/// The Arrow type for a column of `sql_type`.
pub open spec fn inferred_type(sql_type: DataType) -> LogicalType {
    logical_type_of(
        type_code(sql_type),
        size_or_zero(column_size(sql_type)),
        decimal_digits(sql_type),
    )
}

/// The field for a column that the driver describes as `column`: its name and whether it may
/// hold NULL are taken over, its type follows from its SQL type.
pub open spec fn inferred_field(column: ColumnDescriptor) -> Field {
    Field {
        name: column.name,
        data_type: inferred_type(column.data_type),
        nullable: column.nullable,
    }
}

/// The Arrow type for a column whose SQL type has the ODBC type code `code`, the column size
/// `size` and the decimal digits `digits`.
pub fn logical_type_from(code: i16, size: Option<usize>, digits: i16) -> (r: LogicalType)
    ensures
        r == logical_type_of(code as int, size_or_zero(opt_nat(size)), digits as int),
{
    let size: usize = match size {
        Some(n) => n,
        None => 0,
    };
    if (code == SQL_NUMERIC || code == SQL_DECIMAL) && size <= 38 {
        LogicalType::Decimal { precision: size as u8, scale: digits }
    } else if code == SQL_INTEGER {
        LogicalType::Int32
    } else if code == SQL_SMALLINT {
        LogicalType::Int16
    } else if code == SQL_BIGINT {
        LogicalType::Int64
    } else if code == SQL_TINYINT {
        LogicalType::Int8
    } else if code == SQL_REAL || (code == SQL_FLOAT && size <= 24) {
        LogicalType::Float32
    } else if code == SQL_FLOAT || code == SQL_DOUBLE {
        LogicalType::Float64
    } else if code == SQL_DATE {
        LogicalType::Date32
    } else if code == SQL_TIMESTAMP {
        LogicalType::Timestamp(
            if digits == 0 {
                TimeUnit::Second
            } else if 1 <= digits && digits <= 3 {
                TimeUnit::Millisecond
            } else if 4 <= digits && digits <= 6 {
                TimeUnit::Microsecond
            } else {
                TimeUnit::Nanosecond
            },
        )
    } else if code == SQL_BIT {
        LogicalType::Boolean
    } else if code == SQL_BINARY {
        LogicalType::FixedSizeBinary(size)
    } else if code == SQL_VARBINARY || code == SQL_LONGVARBINARY {
        LogicalType::Binary
    } else {
        LogicalType::Utf8
    }
}

/// The Arrow type for a column of `sql_type`.
pub fn logical_type(sql_type: &DataType) -> (r: LogicalType)
    ensures
        r == inferred_type(*sql_type),
{
    logical_type_from(
        sql_type_code(sql_type),
        sql_column_size(sql_type),
        sql_decimal_digits(sql_type),
    )
}

/// The field for a column that the driver describes as `column`.
pub fn infer_field(column: &ColumnDescriptor) -> (r: Field)
    ensures
        r == inferred_field(*column),
{
    Field {
        name: column.name.clone(),
        data_type: logical_type(&column.data_type),
        nullable: column.nullable,
    }
}

/// The schema for a result set whose columns the driver describes as `columns`: one field
/// for each column, in their order.
pub fn infer_schema(columns: &Vec<ColumnDescriptor>) -> (r: Vec<Field>)
    ensures
        r@.len() == columns@.len(),
        forall|i: int| 0 <= i < columns@.len() ==> r@[i] == inferred_field(columns@[i]),
{
    let mut fields: Vec<Field> = Vec::new();
    let mut i: usize = 0;
    while i < columns.len()
        invariant
            i <= columns@.len(),
            fields@.len() == i,
            forall|k: int| 0 <= k < i ==> fields@[k] == inferred_field(columns@[k]),
        decreases columns@.len() - i,
    {
        fields.push(infer_field(&columns[i]));
        i = i + 1;
    }
    fields
}

/// The number of columns of a result set, from what the driver reported. A result set has
/// no negative number of columns.
pub fn column_count<E>(reported: Result<i16, E>) -> (r: Result<u16, Error<E>>)
    requires
        reported is Ok ==> reported->Ok_0 >= 0,
    ensures
        r == match reported {
            Ok(n) => Ok::<u16, Error<E>>(n as u16),
            Err(e) => Err::<u16, Error<E>>(Error::UnableToRetrieveNumCols(e)),
        },
{
    match reported {
        Ok(n) => Ok(n as u16),
        Err(e) => Err(Error::UnableToRetrieveNumCols(e)),
    }
}

/// True where `field` is inferred from a description that `describe_col` may give of column
/// `index`.
pub open spec fn field_described<E, F: Fn(u16) -> Result<ColumnDescriptor, E>>(
    describe_col: F,
    index: u16,
    field: Field,
) -> bool {
    exists|column: ColumnDescriptor|
        call_ensures(describe_col, (index,), Ok(column)) && field == inferred_field(column)
}

/// True where `describe_col` may give a description of column `index`.
pub open spec fn was_described<E, F: Fn(u16) -> Result<ColumnDescriptor, E>>(
    describe_col: F,
    index: u16,
) -> bool {
    exists|column: ColumnDescriptor| call_ensures(describe_col, (index,), Ok(column))
}

/// Infers the schema of a result set from what the driver tells of it. `num_cols` is what
/// it reported as the number of columns. `describe_col` asks it to describe a column, the
/// first being column 1; it is called for one column after the other, and no more once the
/// driver has failed to describe one. There is a schema only where the driver has described
/// every column.
pub fn arrow_schema_from<E, F: Fn(u16) -> Result<ColumnDescriptor, E>>(
    num_cols: Result<i16, E>,
    describe_col: F,
) -> (r: Result<Vec<Field>, Error<E>>)
    requires
        num_cols is Ok ==> num_cols->Ok_0 >= 0,
        forall|index: u16| call_requires(describe_col, (index,)),
    ensures
        num_cols is Err ==> r == Err::<Vec<Field>, Error<E>>(
            Error::UnableToRetrieveNumCols(num_cols->Err_0),
        ),
        r is Ok ==> num_cols is Ok && r->Ok_0@.len() == num_cols->Ok_0,
        r is Ok ==> forall|k: int|
            0 <= k < r->Ok_0@.len() ==> field_described(
                describe_col,
                (k + 1) as u16,
                #[trigger] r->Ok_0@[k],
            ),
        r is Err && num_cols is Ok ==> exists|index: u16, e: E|
            {
                &&& 1 <= index <= num_cols->Ok_0
                &&& call_ensures(describe_col, (index,), Err(e))
                &&& r == Err::<Vec<Field>, Error<E>>(Error::FailedToDescribeColumn(e))
                &&& forall|before: u16|
                    1 <= before < index ==> #[trigger] was_described(describe_col, before)
            },
{
    let count: u16 = match column_count(num_cols) {
        Ok(n) => n,
        Err(e) => {
            return Err(e);
        },
    };
    let mut fields: Vec<Field> = Vec::new();
    let mut index: u16 = 0;
    while index < count
        invariant
            index <= count,
            num_cols is Ok,
            count == num_cols->Ok_0,
            fields@.len() == index,
            forall|index: u16| call_requires(describe_col, (index,)),
            forall|k: int|
                0 <= k < fields@.len() ==> field_described(
                    describe_col,
                    (k + 1) as u16,
                    #[trigger] fields@[k],
                ),
            forall|before: u16|
                1 <= before <= index ==> #[trigger] was_described(describe_col, before),
        decreases count - index,
    {
        match describe_col(index + 1) {
            Ok(column) => {
                let field = infer_field(&column);
                fields.push(field);
            },
            Err(e) => {
                return Err(Error::FailedToDescribeColumn(e));
            },
        }
        index = index + 1;
    }
    Ok(fields)
}

} // verus!
