use line_counter::report::{
    advance_counter, awaiting_frame, build_err, build_err_no_time, build_ok_dir, build_ok_file,
    build_warning, decimal, AwaitingType, BEGINNING_OF_PREV_LINE, ERASE_LINE, GREEN_COLOR,
    RED_COLOR, RESET_COLOR, SET_CURSOR_INVISIBLE, SET_CURSOR_VISIBLE, YELLOW_COLOR,
};

#[test]
fn escape_sequences() {
    assert_eq!(SET_CURSOR_VISIBLE, "\x1b[?25h");
    assert_eq!(SET_CURSOR_INVISIBLE, "\x1b[?25l");
    assert_eq!(BEGINNING_OF_PREV_LINE, "\x1b[1F");
    assert_eq!(ERASE_LINE, "\x1b[2K");
    assert_eq!(RESET_COLOR, "\x1b[0m");
    assert_eq!(RED_COLOR, "\x1b[38;5;196m");
    assert_eq!(YELLOW_COLOR, "\x1b[38;5;185m");
    assert_eq!(GREEN_COLOR, "\x1b[38;5;82m");
}

#[test]
fn warning_is_yellow_on_its_own_line() {
    assert_eq!(
        build_warning("Found no files in specified directory".to_string()),
        "\n\x1b[38;5;185mFound no files in specified directory\x1b[0m"
    );
}

#[test]
fn error_without_time_is_red_on_its_own_line() {
    assert_eq!(
        build_err_no_time("Couldn't open directory: denied".to_string()),
        "\n\x1b[38;5;196mCouldn't open directory: denied\x1b[0m"
    );
}

#[test]
fn empty_messages_keep_their_frame() {
    assert_eq!(build_warning(String::new()), "\n\x1b[38;5;185m\x1b[0m");
    assert_eq!(build_err_no_time(String::new()), "\n\x1b[38;5;196m\x1b[0m");
}

#[test]
fn timed_error() {
    assert_eq!(
        build_err("1.5", "Couldn't open directory: denied".to_string()),
        "Execution time: 1.5 sec\n\x1b[38;5;196mCouldn't open directory: denied\x1b[0m"
    );
}

#[test]
fn report_of_a_file() {
    assert_eq!(
        build_ok_file("0.002", 1234),
        "Execution time: 0.002 sec\n\x1b[38;5;82mTotal rows: \x1b[0m1234"
    );
}

#[test]
fn report_of_a_directory() {
    assert_eq!(
        build_ok_dir("12", 7, 3),
        "Execution time: 12 sec\n\x1b[38;5;82mTotal rows: \x1b[0m7\n\x1b[38;5;82mTotal files: \x1b[0m3"
    );
}

#[test]
fn decimal_text_of_numbers() {
    assert_eq!(decimal(0), "0");
    assert_eq!(decimal(7), "7");
    assert_eq!(decimal(10), "10");
    assert_eq!(decimal(109), "109");
    assert_eq!(decimal(1234567890), "1234567890");
    assert_eq!(decimal(usize::MAX), usize::MAX.to_string());
}

#[test]
fn decimal_text_agrees_with_the_standard_one() {
    for n in 0..2000usize {
        assert_eq!(decimal(n), n.to_string());
    }
}

#[test]
fn frames_of_the_waiting_indicator() {
    assert_eq!(awaiting_frame(AwaitingType::Progress, 0), "In progress\x1b[1F");
    assert_eq!(awaiting_frame(AwaitingType::Progress, 3), "In progress...\x1b[1F");
    assert_eq!(awaiting_frame(AwaitingType::FileCounting, 1), "Counting files.\x1b[1F");
    assert_eq!(awaiting_frame(AwaitingType::FileCounting, 2), "Counting files..\x1b[1F");
}

#[test]
fn dots_cycle_through_four_frames() {
    assert_eq!(advance_counter(0), 1);
    assert_eq!(advance_counter(1), 2);
    assert_eq!(advance_counter(2), 3);
    assert_eq!(advance_counter(3), 0);
    let mut counter = 0;
    let mut seen = Vec::new();
    for _ in 0..9 {
        seen.push(counter);
        counter = advance_counter(counter);
    }
    assert_eq!(seen, vec![0, 1, 2, 3, 0, 1, 2, 3, 0]);
}
