use arrow::array::{Array, AsArray};
use arrow_odbc::{
    narrow_text_strategy, next, odbc_batch_to_arrow_columns, push_utf16, wide_text_strategy,
    BatchError, MappingError, RawBatch, ReaderState, TextStrategy, WorkerState,
};
use odbc_api::buffers::{BoxColumnBuffer, Slice, TextColumn};

fn narrow_buffer(max_str_len: usize, values: &[Option<&[u8]>]) -> BoxColumnBuffer {
    let mut column = TextColumn::<u8>::new(values.len(), max_str_len);
    for (index, value) in values.iter().enumerate() {
        column.set_value(index, *value);
    }
    Box::new(column)
}

fn wide_buffer(max_str_len: usize, values: &[Option<&str>]) -> BoxColumnBuffer {
    let mut column = TextColumn::<u16>::new(values.len(), max_str_len);
    for (index, value) in values.iter().enumerate() {
        let units: Option<Vec<u16>> = value.map(|text| text.encode_utf16().collect());
        column.set_value(index, units.as_deref());
    }
    Box::new(column)
}

fn strategies() -> Vec<TextStrategy> {
    vec![narrow_text_strategy(4, false), wide_text_strategy(4), narrow_text_strategy(4, true)]
}

#[test]
fn batch_has_a_column_for_each_strategy_and_a_value_for_each_row() {
    let first = narrow_buffer(4, &[Some(b"a"), None, Some(b"c")]);
    let second = wide_buffer(4, &[Some("x"), Some("y"), None]);
    let third = narrow_buffer(4, &[Some(b"1"), Some(b"2"), Some(b"3")]);
    for num_rows in 0..4 {
        let batch = RawBatch {
            num_rows,
            columns: vec![first.slice(num_rows), second.slice(num_rows), third.slice(num_rows)],
        };
        let columns = odbc_batch_to_arrow_columns(&strategies(), &batch).unwrap();
        assert_eq!(columns.len(), 3);
        for column in &columns {
            assert_eq!(column.array.len(), num_rows);
        }
    }
}

#[test]
fn batch_keeps_values_and_nulls_in_place() {
    let first = narrow_buffer(4, &[Some(b"a"), None]);
    let second = wide_buffer(4, &[None, Some("y")]);
    let third = narrow_buffer(4, &[Some(b"1"), None]);
    let batch =
        RawBatch { num_rows: 2, columns: vec![first.slice(2), second.slice(2), third.slice(2)] };
    let columns = odbc_batch_to_arrow_columns(&strategies(), &batch).unwrap();
    let first = columns[0].array.as_string::<i32>();
    assert_eq!(first.value(0), "a");
    assert!(first.is_null(1));
    let second = columns[1].array.as_string::<i32>();
    assert!(second.is_null(0));
    assert_eq!(second.value(1), "y");
    let third = columns[2].array.as_string::<i32>();
    assert_eq!(third.value(0), "1");
    assert_eq!(third.value(1), "");
    assert_eq!(third.null_count(), 0);
}

#[test]
fn first_column_that_cannot_be_filled_ends_the_conversion() {
    let first = narrow_buffer(4, &[Some(b"a"), Some(&[0xff])]);
    let second = wide_buffer(4, &[Some("x"), Some("y")]);
    let third = wide_buffer(4, &[Some("x"), Some("y")]);
    let batch =
        RawBatch { num_rows: 2, columns: vec![first.slice(2), second.slice(2), third.slice(2)] };
    let result = odbc_batch_to_arrow_columns(&strategies(), &batch);
    assert_eq!(result.err(), Some(MappingError::InvalidUtf8 { row: 1 }));
    let batch =
        RawBatch { num_rows: 1, columns: vec![first.slice(1), second.slice(1), third.slice(1)] };
    let result = odbc_batch_to_arrow_columns(&strategies(), &batch);
    assert_eq!(result.err(), Some(MappingError::UnexpectedBuffer));
}

#[test]
fn next_hands_out_the_batch() {
    let first = narrow_buffer(4, &[Some(b"a"), None]);
    let strategies = vec![narrow_text_strategy(4, false)];
    let batch = RawBatch { num_rows: 2, columns: vec![first.slice(2)] };
    let item = next::<String, _>(Ok(Some(batch)), &strategies);
    let output = item.unwrap().unwrap();
    assert_eq!(output.num_rows, 2);
    assert_eq!(output.columns.len(), 1);
    assert_eq!(output.columns[0].array.len(), 2);
}

#[test]
fn next_hands_out_nothing_at_the_end() {
    let strategies = vec![narrow_text_strategy(4, false)];
    assert!(next::<String, _>(Ok(None), &strategies).is_none());
}

#[test]
fn next_hands_out_the_error_of_the_driver() {
    let strategies = vec![narrow_text_strategy(4, false)];
    match next(Err("connection lost".to_string()), &strategies) {
        Some(Err(BatchError::Fetch(source))) => assert_eq!(source, "connection lost"),
        _ => panic!("unexpected"),
    }
}

#[test]
fn next_hands_out_the_error_of_the_conversion() {
    let first = narrow_buffer(4, &[Some(&[0xc0, 0x80])]);
    let strategies = vec![narrow_text_strategy(4, false)];
    let batch = RawBatch { num_rows: 1, columns: vec![first.slice(1)] };
    match next::<String, _>(Ok(Some(batch)), &strategies) {
        Some(Err(BatchError::Mapping(e))) => assert_eq!(e, MappingError::InvalidUtf8 { row: 0 }),
        _ => panic!("unexpected"),
    }
}

fn pull(state: &mut ReaderState, fetches: &mut Vec<Option<Result<u8, &'static str>>>, made: &mut usize)
    -> Option<Result<u8, &'static str>> {
    if state.wants_fetch() {
        *made += 1;
        state.hand_out(fetches.remove(0))
    } else {
        None
    }
}

#[test]
fn reader_stops_after_the_first_error() {
    let mut fetches = vec![Some(Ok(1)), Some(Ok(2)), Some(Err("third")), Some(Ok(4)), None];
    let mut state = ReaderState::new();
    let mut made = 0;
    let mut seen = Vec::new();
    for _ in 0..6 {
        seen.push(pull(&mut state, &mut fetches, &mut made));
    }
    assert_eq!(seen, vec![Some(Ok(1)), Some(Ok(2)), Some(Err("third")), None, None, None]);
    assert_eq!(made, 3);
    assert_eq!(state, ReaderState::Stopped);
}

#[test]
fn reader_stops_at_the_end_of_the_result_set() {
    let mut fetches = vec![Some(Ok(1)), None, Some(Ok(3))];
    let mut state = ReaderState::new();
    let mut made = 0;
    let mut seen = Vec::new();
    for _ in 0..4 {
        seen.push(pull(&mut state, &mut fetches, &mut made));
    }
    assert_eq!(seen, vec![Some(Ok(1)), None, None, None]);
    assert_eq!(made, 2);
}

#[test]
fn stopped_reader_hands_out_nothing() {
    let mut state = ReaderState::Stopped;
    assert!(!state.wants_fetch());
    assert_eq!(state.hand_out(Some(Ok::<u8, u8>(1))), None);
    assert_eq!(state, ReaderState::Stopped);
}

// Runs a worker and a consumer over a channel with room for `capacity` items, the consumer
// leaving after `take` items. Gives what the consumer has seen and how many fetches were made.
fn run_concurrent(
    fetches: &[Option<Result<u8, &'static str>>],
    capacity: usize,
    take: usize,
) -> (Vec<Option<Result<u8, &'static str>>>, usize) {
    let mut worker = WorkerState::new();
    let mut consumer = ReaderState::new();
    let mut channel = std::collections::VecDeque::new();
    let mut held = None;
    let mut made = 0;
    let mut seen = Vec::new();
    let mut cancelled = false;
    for round in 0..50 {
        match worker {
            WorkerState::Idle => {
                if worker.begin_fetch(cancelled) {
                    made += 1;
                }
            }
            WorkerState::Fetching => {
                if worker.fetch_done(cancelled) {
                    held = Some(fetches[made - 1]);
                }
            }
            WorkerState::Ready => {
                if cancelled || channel.len() < capacity {
                    let item = held.take().unwrap();
                    let last = !matches!(item, Some(Ok(_)));
                    if !cancelled {
                        channel.push_back(item);
                    }
                    worker.handed_over(!cancelled, last);
                }
            }
            WorkerState::Stopped => {}
        }
        // The consumer is slower than the worker: it looks into the channel every other round.
        if round % 2 == 1 && !cancelled {
            if seen.len() == take {
                cancelled = true;
                channel.clear();
            } else if consumer.wants_fetch() {
                if let Some(item) = channel.pop_front() {
                    seen.push(consumer.hand_out(item));
                }
            } else {
                seen.push(None);
            }
        }
    }
    (seen, made)
}

fn run_sequential(fetches: &[Option<Result<u8, &'static str>>], take: usize)
    -> Vec<Option<Result<u8, &'static str>>> {
    let mut state = ReaderState::new();
    let mut made = 0;
    let mut source = fetches.to_vec();
    (0..take).map(|_| pull(&mut state, &mut source, &mut made)).collect()
}

#[test]
fn concurrent_reader_hands_out_the_same_batches_in_the_same_order() {
    let fetches = [Some(Ok(1)), Some(Ok(2)), Some(Ok(3)), Some(Ok(4)), None];
    for capacity in 1..3 {
        let (seen, made) = run_concurrent(&fetches, capacity, 20);
        assert_eq!(seen, run_sequential(&fetches, seen.len()));
        assert_eq!(&seen[..5], &fetches[..]);
        assert_eq!(made, 5);
    }
}

#[test]
fn concurrent_reader_stops_after_the_first_error() {
    let fetches = [Some(Ok(1)), Some(Err("second")), Some(Ok(3)), None];
    let (seen, made) = run_concurrent(&fetches, 2, 20);
    assert_eq!(&seen[..3], &[Some(Ok(1)), Some(Err("second")), None]);
    assert!(seen[3..].iter().all(|item| item.is_none()));
    assert_eq!(made, 2);
}

#[test]
fn no_fetch_after_the_consumer_is_gone() {
    let fetches = [Some(Ok(1)), Some(Ok(2)), Some(Ok(3)), Some(Ok(4)), Some(Ok(5)), None];
    let (seen, made) = run_concurrent(&fetches, 1, 1);
    assert_eq!(seen, vec![Some(Ok(1))]);
    // One item was taken, one was in the channel and one in the hands of the worker.
    assert!(made <= 3);
    assert!(made < fetches.len());
}

#[test]
fn worker_decisions() {
    let mut worker = WorkerState::new();
    assert_eq!(worker, WorkerState::Idle);
    assert!(worker.begin_fetch(false));
    assert_eq!(worker, WorkerState::Fetching);
    assert!(worker.fetch_done(false));
    assert_eq!(worker, WorkerState::Ready);
    assert!(worker.handed_over(true, false));
    assert_eq!(worker, WorkerState::Idle);
    assert!(!worker.begin_fetch(true));
    assert_eq!(worker, WorkerState::Stopped);

    let mut worker = WorkerState::Fetching;
    assert!(!worker.fetch_done(true));
    assert_eq!(worker, WorkerState::Stopped);
    let mut worker = WorkerState::Ready;
    assert!(!worker.handed_over(true, true));
    assert_eq!(worker, WorkerState::Stopped);
    let mut worker = WorkerState::Ready;
    assert!(!worker.handed_over(false, false));
    assert_eq!(worker, WorkerState::Stopped);
}

#[test]
fn utf16_is_appended_to_what_is_there() {
    let mut text = String::from("a: ");
    let units: Vec<u16> = "\u{1F600}\u{e9}z".encode_utf16().collect();
    assert!(push_utf16(&mut text, &units));
    assert_eq!(text, "a: \u{1F600}\u{e9}z");
    assert!(push_utf16(&mut text, &[]));
    assert_eq!(text, "a: \u{1F600}\u{e9}z");
}

#[test]
fn utf16_round_trip_of_characters_of_every_width() {
    for text in ["", "ascii", "\u{e4}\u{f6}", "\u{20ac}\u{ffff}", "\u{10000}\u{1F600}\u{10FFFF}"] {
        let units: Vec<u16> = text.encode_utf16().collect();
        let mut decoded = String::new();
        assert!(push_utf16(&mut decoded, &units));
        assert_eq!(decoded, text);
        assert_eq!(decoded.as_bytes(), text.as_bytes());
    }
}

#[test]
fn utf16_with_a_stray_surrogate_is_rejected() {
    for units in [vec![0xd800], vec![0xdc00], vec![0x61, 0xdbff], vec![0xd800, 0x61], vec![0xdc00, 0xd800]] {
        let mut decoded = String::new();
        assert!(!push_utf16(&mut decoded, &units));
    }
}
