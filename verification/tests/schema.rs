use arrow_odbc::{
    arrow_schema_from, column_count, infer_field, infer_schema, logical_type, logical_type_from,
    ColumnDescriptor, Error, Field, LogicalType, TimeUnit,
};
use odbc_api::sys::SqlDataType;
use odbc_api::DataType;
use std::cell::Cell;
use std::num::NonZeroUsize;

fn nz(n: usize) -> Option<NonZeroUsize> {
    NonZeroUsize::new(n)
}

fn column(name: &str, data_type: DataType, nullable: bool) -> ColumnDescriptor {
    ColumnDescriptor { name: name.to_string(), data_type, nullable }
}

#[test]
fn numeric_and_decimal_become_decimal_up_to_precision_38() {
    assert_eq!(
        logical_type(&DataType::Numeric { precision: 10, scale: 2 }),
        LogicalType::Decimal { precision: 10, scale: 2 }
    );
    assert_eq!(
        logical_type(&DataType::Decimal { precision: 38, scale: 0 }),
        LogicalType::Decimal { precision: 38, scale: 0 }
    );
    assert_eq!(
        logical_type(&DataType::Decimal { precision: 0, scale: 0 }),
        LogicalType::Decimal { precision: 0, scale: 0 }
    );
    assert_eq!(
        logical_type(&DataType::Numeric { precision: 5, scale: -2 }),
        LogicalType::Decimal { precision: 5, scale: -2 }
    );
}

#[test]
fn numeric_and_decimal_beyond_precision_38_become_text() {
    assert_eq!(logical_type(&DataType::Numeric { precision: 39, scale: 2 }), LogicalType::Utf8);
    assert_eq!(logical_type(&DataType::Decimal { precision: 1000, scale: 0 }), LogicalType::Utf8);
}

#[test]
fn integers_keep_their_width() {
    assert_eq!(logical_type(&DataType::Integer), LogicalType::Int32);
    assert_eq!(logical_type(&DataType::SmallInt), LogicalType::Int16);
    assert_eq!(logical_type(&DataType::BigInt), LogicalType::Int64);
    assert_eq!(logical_type(&DataType::TinyInt), LogicalType::Int8);
}

#[test]
fn floats_are_told_apart_by_precision() {
    assert_eq!(logical_type(&DataType::Real), LogicalType::Float32);
    assert_eq!(logical_type(&DataType::Float { precision: 0 }), LogicalType::Float32);
    assert_eq!(logical_type(&DataType::Float { precision: 24 }), LogicalType::Float32);
    assert_eq!(logical_type(&DataType::Float { precision: 25 }), LogicalType::Float64);
    assert_eq!(logical_type(&DataType::Float { precision: 53 }), LogicalType::Float64);
    assert_eq!(logical_type(&DataType::Double), LogicalType::Float64);
}

#[test]
fn date_and_bit() {
    assert_eq!(logical_type(&DataType::Date), LogicalType::Date32);
    assert_eq!(logical_type(&DataType::Bit), LogicalType::Boolean);
}

#[test]
fn timestamps_get_the_unit_of_their_precision() {
    let unit = |precision: i16| logical_type(&DataType::Timestamp { precision });
    assert_eq!(unit(0), LogicalType::Timestamp(TimeUnit::Second));
    assert_eq!(unit(1), LogicalType::Timestamp(TimeUnit::Millisecond));
    assert_eq!(unit(3), LogicalType::Timestamp(TimeUnit::Millisecond));
    assert_eq!(unit(4), LogicalType::Timestamp(TimeUnit::Microsecond));
    assert_eq!(unit(6), LogicalType::Timestamp(TimeUnit::Microsecond));
    assert_eq!(unit(7), LogicalType::Timestamp(TimeUnit::Nanosecond));
    assert_eq!(unit(9), LogicalType::Timestamp(TimeUnit::Nanosecond));
}

#[test]
fn binary_types() {
    assert_eq!(logical_type(&DataType::Binary { length: nz(16) }), LogicalType::FixedSizeBinary(16));
    assert_eq!(logical_type(&DataType::Binary { length: None }), LogicalType::FixedSizeBinary(0));
    assert_eq!(logical_type(&DataType::Varbinary { length: nz(16) }), LogicalType::Binary);
    assert_eq!(logical_type(&DataType::LongVarbinary { length: None }), LogicalType::Binary);
}

#[test]
fn everything_else_becomes_text() {
    let other = DataType::Other {
        data_type: SqlDataType::EXT_GUID,
        column_size: nz(36),
        decimal_digits: 0,
    };
    for data_type in [
        DataType::Unknown,
        DataType::Time { precision: 3 },
        other,
        DataType::Char { length: nz(5) },
        DataType::WChar { length: nz(5) },
        DataType::Varchar { length: nz(5) },
        DataType::WVarchar { length: None },
        DataType::LongVarchar { length: nz(5) },
        DataType::WLongVarchar { length: nz(5) },
    ] {
        assert_eq!(logical_type(&data_type), LogicalType::Utf8);
    }
}

#[test]
fn type_from_code_size_and_digits() {
    assert_eq!(logical_type_from(4, None, 0), LogicalType::Int32);
    assert_eq!(logical_type_from(3, Some(12), 4), LogicalType::Decimal { precision: 12, scale: 4 });
    assert_eq!(logical_type_from(6, Some(24), 0), LogicalType::Float32);
    assert_eq!(logical_type_from(6, Some(25), 0), LogicalType::Float64);
    assert_eq!(logical_type_from(93, None, -1), LogicalType::Timestamp(TimeUnit::Nanosecond));
    assert_eq!(logical_type_from(-2, Some(7), 0), LogicalType::FixedSizeBinary(7));
    assert_eq!(logical_type_from(-150, Some(7), 0), LogicalType::Utf8);
}

#[test]
fn field_takes_name_and_nullability_as_they_are() {
    let field = infer_field(&column("amount", DataType::Numeric { precision: 10, scale: 2 }, true));
    assert_eq!(
        field,
        Field {
            name: "amount".to_string(),
            data_type: LogicalType::Decimal { precision: 10, scale: 2 },
            nullable: true,
        }
    );
    let field = infer_field(&column("id", DataType::Integer, false));
    assert_eq!(field.name, "id");
    assert!(!field.nullable);
}

#[test]
fn schema_has_one_field_for_each_column_in_order() {
    let columns = vec![
        column("a", DataType::Integer, false),
        column("b", DataType::Varchar { length: nz(10) }, true),
        column("c", DataType::Date, true),
    ];
    let schema = infer_schema(&columns);
    assert_eq!(schema.len(), 3);
    assert_eq!(schema[0].data_type, LogicalType::Int32);
    assert_eq!(schema[1].data_type, LogicalType::Utf8);
    assert_eq!(schema[2].data_type, LogicalType::Date32);
    assert_eq!(schema[1].name, "b");
    assert!(infer_schema(&Vec::new()).is_empty());
}

#[test]
fn number_of_columns() {
    assert!(matches!(column_count::<String>(Ok(3)), Ok(3)));
    assert!(matches!(column_count::<String>(Ok(0)), Ok(0)));
    match column_count(Err("lost".to_string())) {
        Err(Error::UnableToRetrieveNumCols(source)) => assert_eq!(source, "lost"),
        other => panic!("unexpected: {:?}", other),
    }
}

#[test]
fn schema_from_what_the_driver_tells() {
    let asked = Cell::new(0u16);
    let schema = arrow_schema_from::<String, _>(Ok(2), |index| {
        asked.set(asked.get() + 1);
        Ok(match index {
            1 => column("first", DataType::BigInt, false),
            2 => column("second", DataType::Timestamp { precision: 3 }, true),
            _ => panic!("no such column"),
        })
    })
    .unwrap();
    assert_eq!(asked.get(), 2);
    assert_eq!(schema.len(), 2);
    assert_eq!(schema[0].name, "first");
    assert_eq!(schema[0].data_type, LogicalType::Int64);
    assert_eq!(schema[1].data_type, LogicalType::Timestamp(TimeUnit::Millisecond));
    assert!(schema[1].nullable);
}

#[test]
fn no_schema_where_the_number_of_columns_is_not_known() {
    let result = arrow_schema_from(Err("no connection".to_string()), |_| {
        panic!("must not ask for a column")
    });
    match result {
        Err(Error::UnableToRetrieveNumCols(source)) => assert_eq!(source, "no connection"),
        other => panic!("unexpected: {:?}", other),
    }
}

#[test]
fn no_schema_where_a_column_is_not_described() {
    let asked = Cell::new(0u16);
    let result = arrow_schema_from(Ok(5), |index| {
        asked.set(asked.get() + 1);
        if index == 3 {
            Err("column 3".to_string())
        } else {
            Ok(column("x", DataType::Integer, false))
        }
    });
    match result {
        Err(Error::FailedToDescribeColumn(source)) => assert_eq!(source, "column 3"),
        other => panic!("unexpected: {:?}", other),
    }
    assert_eq!(asked.get(), 3);
}
