//! One candidate file: the extension filter, then the line counter.

use crate::extension::{has_listed_extension, listed};
use crate::lines::{count_file, file_rows, ReadModel, ReadOutcome};
use crate::total::{FileTotal, Tally};
use vstd::prelude::*;

verus! {

/// The result for one candidate file: nothing, where the extension filter
/// rejects the path, whatever the read brought; else the rows that the line
/// counter finds and one file, or the line counter's message.
pub open spec fn file_total(path: Seq<char>, exts: Seq<Seq<char>>, read: ReadModel) -> Result<
    Tally,
    Seq<char>,
> {
    if !listed(path, exts) {
        Ok(Tally::zero())
    } else {
        match file_rows(path, read) {
            Ok(rows) => Ok(Tally { rows, files: 1 }),
            Err(message) => Err(message),
        }
    }
}

/// The mathematical value of a per-file result.
pub open spec fn file_total_model(result: Result<FileTotal, String>) -> Result<Tally, Seq<char>> {
    match result {
        Ok(file) => Ok(file.tally()),
        Err(message) => Err(message@),
    }
}

/// Counts one candidate file from what came of reading it. A path that the
/// extension filter rejects is ignored, with no rows.
pub fn count_dir_file(path: &str, ext_vec: &Vec<String>, read: &ReadOutcome) -> (result: Result<
    FileTotal,
    String,
>)
    ensures
        file_total_model(result) == file_total(path@, ext_vec.deep_view(), read@),
        result matches Ok(file) ==> file.ignore == !listed(path@, ext_vec.deep_view()),
        result matches Ok(file) ==> file.ignore ==> file.rows == 0,
{
    if has_listed_extension(path, ext_vec) {
        match count_file(path, read) {
            Err(why) => Err(why),
            Ok(rows) => Ok(FileTotal { rows, ignore: false }),
        }
    } else {
        Ok(FileTotal { rows: 0, ignore: true })
    }
}

} // verus!
