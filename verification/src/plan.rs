//! How a run is set up: sequential or parallel, and whether a parallel run
//! has anything to start on.

use crate::report::{build_err_no_time, build_warning, coloured_line, RED_COLOR, YELLOW_COLOR};
use vstd::prelude::*;
use vstd::string::*;

verus! {

pub const UNKNOWN_CORES: &'static str =
    "Couldn't determine the number of available cores of the system\nOnly single-threaded processing available";

pub const NO_FILES: &'static str = "Found no files in specified directory";

/// How the engine can run on a machine.
#[derive(Clone, Copy, Debug, PartialEq, Eq, Structural)]
pub enum RunMode {
    /// Sequentially, and the number of cores could not be determined.
    SequentialUnknownCores,
    /// Sequentially: there is one core.
    Sequential,
    /// In parallel if the user wishes so, with one worker for each core.
    Parallel,
}

/// The mode for a machine on which `cores` cores were detected, 0 standing
/// for a detection that failed: a parallel run takes two cores at least.
pub open spec fn mode_for(cores: nat) -> RunMode {
    if cores == 0 {
        RunMode::SequentialUnknownCores
    } else if cores < 2 {
        RunMode::Sequential
    } else {
        RunMode::Parallel
    }
}

/// The mode for a machine on which `cores` cores were detected.
pub fn run_mode(cores: usize) -> (mode: RunMode)
    ensures
        mode == mode_for(cores as nat),
{
    if cores == 0 {
        RunMode::SequentialUnknownCores
    } else if cores < 2 {
        RunMode::Sequential
    } else {
        RunMode::Parallel
    }
}

/// Whether a parallel run starts, once the files were counted.
#[derive(Clone, Debug, PartialEq, Eq)]
pub enum Launch {
    /// Nothing starts, because the files could not be counted: this is the
    /// text to show.
    Failed(String),
    /// Nothing starts, because there are no files: this is the text to show.
    Empty(String),
    /// The workers start on this many files.
    Start(usize),
}

/// The mathematical value of a `Launch`.
pub enum LaunchModel {
    Failed(Seq<char>),
    Empty(Seq<char>),
    Start(nat),
}

impl View for Launch {
    type V = LaunchModel;

    open spec fn view(&self) -> LaunchModel {
        match self {
            Launch::Failed(text) => LaunchModel::Failed(text@),
            Launch::Empty(text) => LaunchModel::Empty(text@),
            Launch::Start(files) => LaunchModel::Start(*files as nat),
        }
    }
}

/// The mathematical value of a file count or the message in its place.
pub open spec fn counted_model(counted: Result<usize, String>) -> Result<nat, Seq<char>> {
    match counted {
        Ok(files) => Ok(files as nat),
        Err(message) => Err(message@),
    }
}

/// Whether a parallel run starts: not when the files could not be counted,
/// which is an error, nor when there are none, which is a warning.
pub open spec fn launch_for(counted: Result<nat, Seq<char>>) -> LaunchModel {
    match counted {
        Err(message) => LaunchModel::Failed(coloured_line(RED_COLOR@, message)),
        Ok(files) => if files == 0 {
            LaunchModel::Empty(coloured_line(YELLOW_COLOR@, NO_FILES@))
        } else {
            LaunchModel::Start(files)
        },
    }
}

/// Whether a parallel run starts, given what counting the files came to.
pub fn launch(counted: Result<usize, String>) -> (decision: Launch)
    ensures
        decision@ == launch_for(counted_model(counted)),
{
    match counted {
        Err(message) => Launch::Failed(build_err_no_time(message)),
        Ok(files) => if files == 0 {
            Launch::Empty(build_warning(String::from_str(NO_FILES)))
        } else {
            Launch::Start(files)
        },
    }
}

} // verus!
