use line_join::buffer::{ReadBuffer, MAX_CAPACITY};
use line_join::coordinator::{collect_outcomes, FirstFailure};
use line_join::lines::{check_item_occurrences, extract_lines, Extraction, NEWLINE};
use line_join::pipe_info::{get_pipe_buffer_size, is_pipe};
use line_join::worker::{Failure, Outcome};

#[test]
fn occurrences_are_counted_and_the_last_is_found() {
    assert_eq!(check_item_occurrences(b"a\nbc\nd", &b'\n'), (2, 5));
    assert_eq!(check_item_occurrences(b"\n", &b'\n'), (1, 1));
    assert_eq!(check_item_occurrences(b"abc", &b'\n'), (0, 0));
    assert_eq!(check_item_occurrences(b"", &b'\n'), (0, 0));
    assert_eq!(check_item_occurrences(b"xxyx", &b'x'), (3, 4));
}

#[test]
fn end_of_the_last_terminator_is_one_past_it() {
    assert_eq!(check_item_occurrences(b"a1\na2\na3\n", &b'\n'), (3, 9));
    assert_eq!(check_item_occurrences(b"\nab", &b'\n'), (1, 1));
    assert_eq!(check_item_occurrences(b"a\\\nb\r\nc", &b'\n'), (2, 6));
    assert_eq!(check_item_occurrences(b"\n\n\n", &b'\n'), (3, 3));
}

#[test]
fn occurrences_are_found_in_slices_of_any_type() {
    assert_eq!(check_item_occurrences(&[1i32, 2, 1, 3, 1, 4], &1), (3, 5));
    assert_eq!(check_item_occurrences(&["a", "b", "a"], &"b"), (1, 2));
    assert_eq!(check_item_occurrences(&[true, true], &false), (0, 0));
}

#[test]
fn newline_is_the_line_feed() {
    assert_eq!(NEWLINE, b'\n');
}

#[test]
fn extraction_reports_lines_and_end() {
    assert_eq!(extract_lines(b"a\nbc\nd"), Extraction { lines: 2, end: Some(5) });
    assert_eq!(extract_lines(b"abc"), Extraction { lines: 0, end: None });
    assert_eq!(extract_lines(b""), Extraction { lines: 0, end: None });
    assert_eq!(extract_lines(b"a\r\n"), Extraction { lines: 1, end: Some(3) });
}

#[test]
fn extraction_of_a_terminated_range_is_the_whole_range() {
    assert_eq!(extract_lines(b"one\ntwo\n"), Extraction { lines: 2, end: Some(8) });
    assert_eq!(extract_lines(b"\nab"), Extraction { lines: 1, end: Some(1) });
    assert_eq!(extract_lines(b"\n\n\n"), Extraction { lines: 3, end: Some(3) });
}

#[test]
fn buffer_grows_by_half_or_by_what_is_asked() {
    let mut buffer = ReadBuffer::new(4);
    assert_eq!(buffer.capacity(), 4);
    assert_eq!(buffer.pending_len(), 0);
    buffer.ensure_capacity(4);
    assert_eq!(buffer.capacity(), 4);
    buffer.append(b"abc");
    assert_eq!(buffer.pending(), b"abc");
    buffer.ensure_capacity(4);
    assert_eq!(buffer.capacity(), 8);
    assert_eq!(buffer.pending(), b"abc");
    buffer.append(b"defgh");
    buffer.ensure_capacity(1);
    assert_eq!(buffer.capacity(), 12);
    buffer.ensure_capacity(1);
    assert_eq!(buffer.capacity(), 18);
    buffer.ensure_capacity(1);
    assert_eq!(buffer.capacity(), 18);
    assert_eq!(buffer.pending(), b"abcdefgh");
    buffer.ensure_capacity(10);
    assert_eq!(buffer.capacity(), 18);
    buffer.ensure_capacity(11);
    assert_eq!(buffer.capacity(), 29);
}

#[test]
fn buffer_consume_moves_the_rest_to_the_front() {
    let mut buffer = ReadBuffer::new(8);
    buffer.append(b"ab\ncd");
    buffer.consume(3);
    assert_eq!(buffer.pending(), b"cd");
    assert_eq!(buffer.pending_len(), 2);
    assert_eq!(buffer.capacity(), 8);
    buffer.push(b'\n');
    assert_eq!(buffer.pending(), b"cd\n");
    buffer.consume(0);
    assert_eq!(buffer.pending(), b"cd\n");
    buffer.consume(3);
    assert_eq!(buffer.pending(), b"");
}

#[test]
fn buffer_knows_when_it_cannot_grow() {
    let buffer = ReadBuffer::new(16);
    assert!(buffer.fits_after(0, 16));
    assert!(buffer.fits_after(8, 8));
    assert!(buffer.fits_after(16, MAX_CAPACITY - 16));
    assert!(!buffer.fits_after(16, MAX_CAPACITY - 15));
    assert!(!buffer.fits_after(0, MAX_CAPACITY - 15));
    assert_eq!(MAX_CAPACITY, usize::MAX / 2);
}

#[test]
fn outcomes_of_a_clean_run_are_the_counts() {
    let outcomes = vec![Outcome::Lines(3), Outcome::Lines(0), Outcome::Lines(2)];
    assert_eq!(collect_outcomes(&outcomes), Ok(vec![3, 0, 2]));
    assert_eq!(collect_outcomes(&Vec::new()), Ok(Vec::new()));
}

#[test]
fn first_failure_by_input_order_is_reported() {
    let outcomes = vec![
        Outcome::Lines(3),
        Outcome::Failed(Failure::Write),
        Outcome::Lines(2),
        Outcome::Failed(Failure::Read),
    ];
    assert_eq!(
        collect_outcomes(&outcomes),
        Err(FirstFailure { input: 1, failure: Failure::Write })
    );
}

#[test]
fn pipes_are_told_by_their_mode() {
    assert!(is_pipe(0o010600));
    assert!(is_pipe(0o010000));
    assert!(!is_pipe(0o100644));
    assert!(!is_pipe(0o020620));
    assert!(!is_pipe(0o140777));
    assert!(!is_pipe(0));
}

#[test]
fn pipe_buffer_size_needs_a_pipe_and_an_answer() {
    assert_eq!(get_pipe_buffer_size(0o010600, 65536), Some(65536));
    assert_eq!(get_pipe_buffer_size(0o010600, 0), Some(0));
    assert_eq!(get_pipe_buffer_size(0o010600, -1), None);
    assert_eq!(get_pipe_buffer_size(0o100644, 65536), None);
}
