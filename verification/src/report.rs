//! The texts that report a run: results, warnings and errors, coloured with
//! ANSI escape sequences.

use vstd::prelude::*;
use vstd::string::*;

verus! {

pub const SET_CURSOR_VISIBLE: &'static str = "\u{001B}[?25h";

pub const SET_CURSOR_INVISIBLE: &'static str = "\u{001B}[?25l";

pub const BEGINNING_OF_PREV_LINE: &'static str = "\u{001B}[1F";

pub const ERASE_LINE: &'static str = "\u{001B}[2K";

pub const RESET_COLOR: &'static str = "\u{001B}[0m";

pub const RED_COLOR: &'static str = "\u{001B}[38;5;196m";

pub const YELLOW_COLOR: &'static str = "\u{001B}[38;5;185m";

pub const GREEN_COLOR: &'static str = "\u{001B}[38;5;82m";

/// `text` on a line of its own, in the given colour.
pub open spec fn coloured_line(color: Seq<char>, text: Seq<char>) -> Seq<char> {
    "\n"@ + color + text + RESET_COLOR@
}

fn build_coloured_line(color: &str, text: &str) -> (line: String)
    ensures
        line@ == coloured_line(color@, text@),
{
    let mut line = String::from_str("\n");
    line.append(color);
    line.append(text);
    line.append(RESET_COLOR);
    line
}

/// An error that carries no execution time: the message in red, on a line of
/// its own.
pub fn build_err_no_time(err_mes: String) -> (text: String)
    ensures
        text@ == coloured_line(RED_COLOR@, err_mes@),
{
    build_coloured_line(RED_COLOR, err_mes.as_str())
}

/// A warning: the message in yellow, on a line of its own.
pub fn build_warning(warn_mes: String) -> (text: String)
    ensures
        text@ == coloured_line(YELLOW_COLOR@, warn_mes@),
{
    build_coloured_line(YELLOW_COLOR, warn_mes.as_str())
}

/// The text of one decimal digit.
pub open spec fn digit_text(digit: nat) -> Seq<char> {
    if digit == 0 {
        "0"@
    } else if digit == 1 {
        "1"@
    } else if digit == 2 {
        "2"@
    } else if digit == 3 {
        "3"@
    } else if digit == 4 {
        "4"@
    } else if digit == 5 {
        "5"@
    } else if digit == 6 {
        "6"@
    } else if digit == 7 {
        "7"@
    } else if digit == 8 {
        "8"@
    } else {
        "9"@
    }
}

/// The decimal text of a number: its digits, the most significant first, with
/// no leading zero but for zero itself.
pub open spec fn decimal_text(n: nat) -> Seq<char>
    decreases n,
{
    if n < 10 {
        digit_text(n)
    } else {
        decimal_text(n / 10) + digit_text(n % 10)
    }
}

fn digit(d: usize) -> (text: &'static str)
    requires
        d < 10,
    ensures
        text@ == digit_text(d as nat),
{
    if d == 0 {
        "0"
    } else if d == 1 {
        "1"
    } else if d == 2 {
        "2"
    } else if d == 3 {
        "3"
    } else if d == 4 {
        "4"
    } else if d == 5 {
        "5"
    } else if d == 6 {
        "6"
    } else if d == 7 {
        "7"
    } else if d == 8 {
        "8"
    } else {
        "9"
    }
}

/// The decimal text of `n`.
pub fn decimal(n: usize) -> (text: String)
    ensures
        text@ == decimal_text(n as nat),
    decreases n,
{
    if n < 10 {
        String::from_str(digit(n))
    } else {
        let mut text = decimal(n / 10);
        text.append(digit(n % 10));
        text
    }
}

/// The line that opens a timed report.
pub open spec fn time_line(exec_time: Seq<char>) -> Seq<char> {
    "Execution time: "@ + exec_time + " sec\n"@
}

/// A count under its label: the label in green, then the number.
pub open spec fn labelled_count(label: Seq<char>, count: nat) -> Seq<char> {
    GREEN_COLOR@ + label + RESET_COLOR@ + decimal_text(count)
}

/// The report of a failed run that took `exec_time` seconds.
pub open spec fn err_text(exec_time: Seq<char>, err_mes: Seq<char>) -> Seq<char> {
    time_line(exec_time) + RED_COLOR@ + err_mes + RESET_COLOR@
}

/// The report of a counted file.
pub open spec fn ok_file_text(exec_time: Seq<char>, row_count: nat) -> Seq<char> {
    time_line(exec_time) + labelled_count("Total rows: "@, row_count)
}

/// The report of a counted directory.
pub open spec fn ok_dir_text(exec_time: Seq<char>, row_count: nat, file_count: nat) -> Seq<char> {
    time_line(exec_time) + labelled_count("Total rows: "@, row_count) + "\n"@ + labelled_count(
        "Total files: "@,
        file_count,
    )
}

fn build_time_line(exec_time: &str) -> (text: String)
    ensures
        text@ == time_line(exec_time@),
{
    let mut text = String::from_str("Execution time: ");
    text.append(exec_time);
    text.append(" sec\n");
    text
}

fn append_labelled_count(text: &mut String, label: &str, count: usize)
    ensures
        final(text)@ == old(text)@ + labelled_count(label@, count as nat),
{
    let ghost before = text@;
    text.append(GREEN_COLOR);
    text.append(label);
    text.append(RESET_COLOR);
    let number = decimal(count);
    text.append(number.as_str());
    assert(text@ =~= before + labelled_count(label@, count as nat));
}

/// The report of a failed run: the time it took, given as text in seconds,
/// and the message in red.
pub fn build_err(exec_time: &str, err_mes: String) -> (text: String)
    ensures
        text@ == err_text(exec_time@, err_mes@),
{
    let mut text = build_time_line(exec_time);
    text.append(RED_COLOR);
    text.append(err_mes.as_str());
    text.append(RESET_COLOR);
    text
}

/// The report of a counted file: the time it took, given as text in seconds,
/// and its rows.
pub fn build_ok_file(exec_time: &str, row_count: usize) -> (text: String)
    ensures
        text@ == ok_file_text(exec_time@, row_count as nat),
{
    let mut text = build_time_line(exec_time);
    append_labelled_count(&mut text, "Total rows: ", row_count);
    text
}

/// The report of a counted directory: the time it took, given as text in
/// seconds, its rows and its files.
pub fn build_ok_dir(exec_time: &str, row_count: usize, file_count: usize) -> (text: String)
    ensures
        text@ == ok_dir_text(exec_time@, row_count as nat, file_count as nat),
{
    let mut text = build_time_line(exec_time);
    append_labelled_count(&mut text, "Total rows: ", row_count);
    text.append("\n");
    append_labelled_count(&mut text, "Total files: ", file_count);
    text
}

/// What the user is waiting for.
#[derive(Clone, Copy, Debug, PartialEq, Eq, Structural)]
pub enum AwaitingType {
    Progress,
    FileCounting,
}

/// What to tell the user who waits.
pub open spec fn awaiting_text(aw_type: AwaitingType) -> Seq<char> {
    match aw_type {
        AwaitingType::Progress => "In progress"@,
        AwaitingType::FileCounting => "Counting files"@,
    }
}

/// `count` dots.
pub open spec fn dots(count: nat) -> Seq<char>
    decreases count,
{
    if count == 0 {
        Seq::empty()
    } else {
        dots((count - 1) as nat) + "."@
    }
}

/// One frame of the waiting indicator: the message, `counter` dots, and the
/// escape sequence that takes the cursor back to the line's beginning, so that
/// the next frame overwrites this one.
pub open spec fn frame_text(aw_type: AwaitingType, counter: nat) -> Seq<char> {
    awaiting_text(aw_type) + dots(counter) + BEGINNING_OF_PREV_LINE@
}

/// The number of dots of the frame after one with `counter` dots: one more,
/// and none after three.
pub open spec fn next_counter(counter: nat) -> nat {
    if counter >= 3 {
        0
    } else {
        counter + 1
    }
}

/// One frame of the waiting indicator.
pub fn awaiting_frame(aw_type: AwaitingType, counter: usize) -> (text: String)
    ensures
        text@ == frame_text(aw_type, counter as nat),
{
    let message = match aw_type {
        AwaitingType::Progress => "In progress",
        AwaitingType::FileCounting => "Counting files",
    };
    let mut text = String::from_str(message);
    let mut i: usize = 0;
    assert(text@ =~= awaiting_text(aw_type) + dots(0));
    while i < counter
        invariant
            i <= counter,
            text@ == awaiting_text(aw_type) + dots(i as nat),
        decreases counter - i,
    {
        text.append(".");
        i = i + 1;
        assert(text@ =~= awaiting_text(aw_type) + dots(i as nat));
    }
    text.append(BEGINNING_OF_PREV_LINE);
    text
}

/// The number of dots of the next frame.
pub fn advance_counter(counter: usize) -> (next: usize)
    ensures
        next == next_counter(counter as nat),
{
    if counter >= 3 {
        0
    } else {
        counter + 1
    }
}

} // verus!
