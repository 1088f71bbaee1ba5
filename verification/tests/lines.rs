use line_counter::lines::{count_file, count_lines, ReadOutcome};

#[test]
fn empty_text_has_no_rows() {
    assert_eq!(count_lines(""), 0);
}

#[test]
fn text_without_line_feed_has_no_rows() {
    assert_eq!(count_lines("one line, not ended"), 0);
}

#[test]
fn each_line_feed_is_a_row() {
    assert_eq!(count_lines("a\nb\n"), 2);
    assert_eq!(count_lines("a\nb"), 1);
    assert_eq!(count_lines("\n"), 1);
    assert_eq!(count_lines("\n\n\n"), 3);
    assert_eq!(count_lines("x\n\ny\n\n\nz"), 5);
}

#[test]
fn carriage_returns_are_not_rows() {
    assert_eq!(count_lines("a\r\nb\r\n"), 2);
    assert_eq!(count_lines("a\rb\r"), 0);
}

#[test]
fn other_line_separators_are_not_rows() {
    assert_eq!(count_lines("a\u{2028}b\u{0085}c\u{000B}d\u{000C}"), 0);
}

#[test]
fn rows_of_text_beyond_ascii() {
    assert_eq!(count_lines("héllo\nwörld\n日本語\n"), 3);
}

#[test]
fn rows_of_a_long_text() {
    let text = "line\n".repeat(10_000);
    assert_eq!(count_lines(&text), 10_000);
}

#[test]
fn counted_file_gives_its_rows() {
    let read = ReadOutcome::Content("a\nb\nc\n".to_string());
    assert_eq!(count_file("notes.txt", &read), Ok(3));
}

#[test]
fn file_that_cannot_be_opened_gives_the_message() {
    let read = ReadOutcome::OpenFailed("Permission denied (os error 13)".to_string());
    assert_eq!(
        count_file("dir/notes.txt", &read),
        Err("Couldn't open dir/notes.txt: Permission denied (os error 13)".to_string())
    );
}

#[test]
fn file_that_cannot_be_read_gives_the_message() {
    let read = ReadOutcome::ReadFailed("stream did not contain valid UTF-8".to_string());
    assert_eq!(
        count_file("dir/blob.txt", &read),
        Err("Couldn't read dir/blob.txt: stream did not contain valid UTF-8".to_string())
    );
}
