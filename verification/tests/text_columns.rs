use arrow::array::{Array, AsArray};
use arrow_odbc::reader::read_strategy::ReadStrategy;
use arrow_odbc::{
    ArrowColumn, MappingError, NarrowText, NarrowUseTerminatingZero, TextStrategy, WideText,
};
use odbc_api::buffers::{BoxColumnBuffer, Slice, TextColumn};

fn narrow_buffer(max_str_len: usize, values: &[Option<&[u8]>]) -> BoxColumnBuffer {
    let mut column = TextColumn::<u8>::new(values.len(), max_str_len);
    for (index, value) in values.iter().enumerate() {
        column.set_value(index, *value);
    }
    Box::new(column)
}

fn wide_buffer(max_str_len: usize, values: &[Option<&str>]) -> BoxColumnBuffer {
    let mut column = TextColumn::<u16>::new(values.len(), max_str_len);
    for (index, value) in values.iter().enumerate() {
        let units: Option<Vec<u16>> = value.map(|text| text.encode_utf16().collect());
        column.set_value(index, units.as_deref());
    }
    Box::new(column)
}

fn texts(column: &ArrowColumn) -> Vec<Option<String>> {
    column
        .array
        .as_string::<i32>()
        .iter()
        .map(|value| value.map(|text| text.to_string()))
        .collect()
}

#[test]
fn narrow_text_copies_values_and_keeps_nulls() {
    let buffer = narrow_buffer(5, &[Some(b"Hello"), None, Some(b""), Some("Gr\u{fc}n".as_bytes())]);
    let column = NarrowText::new(5).fill_arrow_array(buffer.slice(4)).unwrap();
    assert_eq!(column.array.len(), 4);
    assert!(column.array.is_null(1));
    assert_eq!(
        texts(&column),
        vec![Some("Hello".to_string()), None, Some(String::new()), Some("Gr\u{fc}n".to_string())]
    );
}

#[test]
fn narrow_text_reads_only_the_valid_rows() {
    let buffer = narrow_buffer(3, &[Some(b"a"), Some(b"b"), Some(b"c")]);
    let column = NarrowText::new(3).fill_arrow_array(buffer.slice(2)).unwrap();
    assert_eq!(texts(&column), vec![Some("a".to_string()), Some("b".to_string())]);
}

#[test]
fn narrow_text_of_no_rows_is_an_empty_array() {
    let buffer = narrow_buffer(3, &[]);
    let column = NarrowText::new(3).fill_arrow_array(buffer.slice(0)).unwrap();
    assert_eq!(column.array.len(), 0);
}

#[test]
fn narrow_text_rejects_bytes_that_are_not_utf8() {
    let buffer = narrow_buffer(4, &[Some(b"ok"), Some(&[0x66, 0xff, 0x6f]), Some(&[0xc3])]);
    let result = NarrowText::new(4).fill_arrow_array(buffer.slice(3));
    assert_eq!(result.err(), Some(MappingError::InvalidUtf8 { row: 1 }));
}

#[test]
fn narrow_text_rejects_a_wide_buffer() {
    let buffer = wide_buffer(4, &[Some("ab")]);
    let result = NarrowText::new(4).fill_arrow_array(buffer.slice(1));
    assert_eq!(result.err(), Some(MappingError::UnexpectedBuffer));
}

#[test]
fn wide_text_turns_utf16_into_utf8() {
    let buffer = wide_buffer(6, &[Some("Hello"), None, Some("\u{e4}\u{20ac}")]);
    let column = WideText::new(6).fill_arrow_array(buffer.slice(3)).unwrap();
    assert_eq!(
        texts(&column),
        vec![Some("Hello".to_string()), None, Some("\u{e4}\u{20ac}".to_string())]
    );
}

#[test]
fn wide_text_keeps_a_character_outside_the_basic_plane() {
    let emoji = "\u{1F600}";
    assert_eq!(emoji.len(), 4);
    assert_eq!(emoji.encode_utf16().count(), 2);
    let buffer = wide_buffer(4, &[Some(emoji), Some("a\u{1F600}b")]);
    let column = WideText::new(4).fill_arrow_array(buffer.slice(2)).unwrap();
    assert_eq!(texts(&column), vec![Some(emoji.to_string()), Some("a\u{1F600}b".to_string())]);
    assert_eq!(column.array.as_string::<i32>().value(0).as_bytes(), &[0xf0, 0x9f, 0x98, 0x80]);
}

#[test]
fn wide_text_rejects_a_surrogate_without_a_partner() {
    let mut column = TextColumn::<u16>::new(3, 2);
    column.set_value(0, Some(&[0x0061]));
    column.set_value(1, Some(&[0xd83d]));
    column.set_value(2, Some(&[0xde00, 0xd83d]));
    let buffer: BoxColumnBuffer = Box::new(column);
    let result = WideText::new(2).fill_arrow_array(buffer.slice(3));
    assert_eq!(result.err(), Some(MappingError::InvalidUtf16 { row: 1 }));
}

#[test]
fn wide_text_rejects_a_narrow_buffer() {
    let buffer = narrow_buffer(4, &[Some(b"ab")]);
    let result = WideText::new(4).fill_arrow_array(buffer.slice(1));
    assert_eq!(result.err(), Some(MappingError::UnexpectedBuffer));
}

#[test]
fn terminating_zero_yields_the_string_where_the_indicator_says_null() {
    let mut column = TextColumn::<u8>::new(1, 3);
    column.set_value(0, Some(b"ab"));
    assert_eq!(column.raw_value_buffer(1), b"ab\0\0");
    // The indicator now claims that there is no value. The bytes stay as they are.
    column.fill_null(0, 1);
    assert_eq!(column.value_at(0), None);
    let buffer: BoxColumnBuffer = Box::new(column);
    let column = NarrowUseTerminatingZero::new(3).fill_arrow_array(buffer.slice(1)).unwrap();
    assert_eq!(column.array.len(), 1);
    assert_eq!(column.array.null_count(), 0);
    assert_eq!(texts(&column), vec![Some("ab".to_string())]);
}

#[test]
fn terminating_zero_reads_an_empty_string_for_null() {
    let buffer = narrow_buffer(3, &[Some(b"abc"), None, Some(b"d")]);
    let column = NarrowUseTerminatingZero::new(3).fill_arrow_array(buffer.slice(3)).unwrap();
    assert_eq!(
        texts(&column),
        vec![Some("abc".to_string()), Some(String::new()), Some("d".to_string())]
    );
}

#[test]
fn terminating_zero_ends_the_value_at_the_first_zero() {
    let buffer = narrow_buffer(5, &[Some(b"ab\0cd")]);
    let column = NarrowUseTerminatingZero::new(5).fill_arrow_array(buffer.slice(1)).unwrap();
    assert_eq!(texts(&column), vec![Some("ab".to_string())]);
}

#[test]
fn terminating_zero_rejects_bytes_that_are_not_utf8() {
    let buffer = narrow_buffer(3, &[Some(b"ab"), Some(&[0xff, 0x61])]);
    let result = NarrowUseTerminatingZero::new(3).fill_arrow_array(buffer.slice(2));
    assert_eq!(result.err(), Some(MappingError::InvalidUtf8 { row: 1 }));
}

#[test]
fn terminating_zero_rejects_a_buffer_of_another_length() {
    let buffer = narrow_buffer(3, &[Some(b"ab"), Some(b"cd")]);
    let result = NarrowUseTerminatingZero::new(7).fill_arrow_array(buffer.slice(2));
    assert_eq!(result.err(), Some(MappingError::UnexpectedBuffer));
}

#[test]
fn text_strategy_reads_as_the_strategy_in_it() {
    let buffer = narrow_buffer(3, &[Some(b"ab"), None]);
    let narrow = TextStrategy::Narrow(NarrowText::new(3));
    let zero = TextStrategy::NarrowTerminatingZero(NarrowUseTerminatingZero::new(3));
    assert_eq!(
        texts(&narrow.fill_arrow_array(buffer.slice(2)).unwrap()),
        vec![Some("ab".to_string()), None]
    );
    assert_eq!(
        texts(&zero.fill_arrow_array(buffer.slice(2)).unwrap()),
        vec![Some("ab".to_string()), Some(String::new())]
    );
    let wide = TextStrategy::Wide(WideText::new(3));
    assert_eq!(
        wide.fill_arrow_array(buffer.slice(2)).err(),
        Some(MappingError::UnexpectedBuffer)
    );
}

#[test]
fn every_column_is_as_long_as_the_batch() {
    for rows in 0..4 {
        let narrow = narrow_buffer(2, &[Some(b"a"), None, Some(b"bc")]);
        let wide = wide_buffer(2, &[Some("a"), None, Some("bc")]);
        assert_eq!(NarrowText::new(2).fill_arrow_array(narrow.slice(rows)).unwrap().array.len(), rows);
        assert_eq!(
            NarrowUseTerminatingZero::new(2).fill_arrow_array(narrow.slice(rows)).unwrap().array.len(),
            rows
        );
        assert_eq!(WideText::new(2).fill_arrow_array(wide.slice(rows)).unwrap().array.len(), rows);
    }
}
