//! The line counter: how many line feeds a file's text holds.

use vstd::prelude::*;
use vstd::string::*;

verus! {

/// The number of line feeds in `text`.
pub open spec fn line_feeds(text: Seq<char>) -> nat {
    text.filter(|c: char| c == '\n').len()
}

/// Compiles `pattern` with `regex::Regex::new` and counts what
/// `regex::Regex::find_iter` yields for `haystack`: the successive
/// non-overlapping matches. `None` stands for a pattern that does not compile.
///
/// Trusted, not proved: the pattern that is one line feed and nothing else
/// compiles (it is a literal, far below any size limit), and its matches are
/// the line feeds of the haystack, one match each. Of other patterns nothing
/// is claimed.
#[verifier::external_body]
fn count_matches(pattern: &str, haystack: &str) -> (count: Option<usize>)
    ensures
        pattern@ == seq!['\n'] ==> count is Some && count->0 == line_feeds(haystack@),
{
    match regex::Regex::new(pattern) {
        Ok(re) => Some(re.find_iter(haystack).count()),
        Err(_) => None,
    }
}

/// The number of line feeds in `content`.
pub fn count_lines(content: &str) -> (rows: usize)
    ensures
        rows == line_feeds(content@),
{
    proof {
        reveal_strlit("\n");
        assert("\n"@ =~= seq!['\n']);
    }
    match count_matches("\n", content) {
        Some(rows) => rows,
        None => vstd::pervasive::unreached(),
    }
}

/// What came of reading a file's text: the text, or why the file could not
/// be opened or read (a file that is no valid text counts as unreadable).
#[derive(Clone, Debug, PartialEq, Eq)]
pub enum ReadOutcome {
    Content(String),
    OpenFailed(String),
    ReadFailed(String),
}

/// The mathematical value of a `ReadOutcome`.
pub enum ReadModel {
    Content(Seq<char>),
    OpenFailed(Seq<char>),
    ReadFailed(Seq<char>),
}

impl View for ReadOutcome {
    type V = ReadModel;

    open spec fn view(&self) -> ReadModel {
        match self {
            ReadOutcome::Content(text) => ReadModel::Content(text@),
            ReadOutcome::OpenFailed(why) => ReadModel::OpenFailed(why@),
            ReadOutcome::ReadFailed(why) => ReadModel::ReadFailed(why@),
        }
    }
}

/// The message for a file at `path` that could not be opened.
pub open spec fn open_error(path: Seq<char>, why: Seq<char>) -> Seq<char> {
    "Couldn't open "@ + path + ": "@ + why
}

/// The message for a file at `path` that could not be read.
pub open spec fn read_error(path: Seq<char>, why: Seq<char>) -> Seq<char> {
    "Couldn't read "@ + path + ": "@ + why
}

/// The rows of the file at `path`, given what came of reading it: the line
/// feeds of its text, or the message that says why there is no text.
pub open spec fn file_rows(path: Seq<char>, read: ReadModel) -> Result<nat, Seq<char>> {
    match read {
        ReadModel::Content(text) => Ok(line_feeds(text)),
        ReadModel::OpenFailed(why) => Err(open_error(path, why)),
        ReadModel::ReadFailed(why) => Err(read_error(path, why)),
    }
}

/// The mathematical value of a row count or the message in its place.
pub open spec fn rows_model(rows: Result<usize, String>) -> Result<nat, Seq<char>> {
    match rows {
        Ok(n) => Ok(n as nat),
        Err(message) => Err(message@),
    }
}

fn failure(what: &str, path: &str, why: &str) -> (message: String)
    ensures
        message@ == what@ + path@ + ": "@ + why@,
{
    let mut message = String::from_str(what);
    message.append(path);
    message.append(": ");
    message.append(why);
    message
}

/// Counts the rows of the file at `path` from what came of reading it.
pub fn count_file(path: &str, read: &ReadOutcome) -> (rows: Result<usize, String>)
    ensures
        rows_model(rows) == file_rows(path@, read@),
{
    match read {
        ReadOutcome::Content(text) => Ok(count_lines(text.as_str())),
        ReadOutcome::OpenFailed(why) => Err(failure("Couldn't open ", path, why.as_str())),
        ReadOutcome::ReadFailed(why) => Err(failure("Couldn't read ", path, why.as_str())),
    }
}

} // verus!
