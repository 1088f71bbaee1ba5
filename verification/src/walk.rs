//! The recursive enumerator: a depth-first walk of a directory subtree, one
//! listing or read at a time.
//!
//! The walker never touches the file system. It asks its driver to list a
//! directory, to classify an entry, or to count a file, and is told what came
//! of it. The first directory that cannot be listed ends the walk, and so
//! does, in the mode that counts rows, the first file that cannot be counted.

use crate::extension::{has_listed_extension, listed};
use crate::total::{FileTotal, Tally, Total};
use vstd::prelude::*;
use vstd::string::*;

verus! {

/// What a walk is for.
#[derive(Clone, Copy, Debug, PartialEq, Eq, Structural)]
pub enum WalkMode {
    /// Count the files of the subtree, whatever their extension.
    CountFiles,
    /// List the files of the subtree, whatever their extension, in the order
    /// in which the walk meets them.
    Flatten,
    /// Count the rows of the files that the extension filter accepts.
    CountRows,
}

/// Where a walk stands. In every phase but the last, the path on top of the
/// pending entries is the one that the request is about.
#[derive(Clone, Copy, Debug, PartialEq, Eq, Structural)]
pub enum Phase {
    /// The root is to be listed.
    Opening,
    /// An entry is to be classified, and listed if it is a directory.
    Visiting,
    /// A file is to be counted.
    Reading,
    /// The walk is over.
    Finished,
}

/// The state of a walk.
#[derive(Debug)]
pub struct Walker {
    pub mode: WalkMode,
    pub ext_vec: Vec<String>,
    pub phase: Phase,
    /// The entries still to visit; the last one is next.
    pub pending: Vec<String>,
    /// How many files the walk has met.
    pub seen: usize,
    /// In the mode `Flatten`, the files that the walk has met.
    pub paths: Vec<String>,
    /// In the mode `CountRows`, what the counted files came to.
    pub total: Total,
    /// Why the walk failed, if it did.
    pub failed: Option<String>,
}

/// The mathematical value of a walker's state.
pub struct WalkerModel {
    pub mode: WalkMode,
    pub exts: Seq<Seq<char>>,
    pub phase: Phase,
    pub pending: Seq<Seq<char>>,
    pub seen: nat,
    pub paths: Seq<Seq<char>>,
    pub total: Tally,
    pub failed: Option<Seq<char>>,
}

impl View for Walker {
    type V = WalkerModel;

    open spec fn view(&self) -> WalkerModel {
        WalkerModel {
            mode: self.mode,
            exts: self.ext_vec.deep_view(),
            phase: self.phase,
            pending: self.pending.deep_view(),
            seen: self.seen as nat,
            paths: self.paths.deep_view(),
            total: self.total@,
            failed: match self.failed {
                Some(message) => Some(message@),
                None => None,
            },
        }
    }
}

/// What a walker asks of its driver.
#[derive(Clone, Debug, PartialEq, Eq)]
pub enum WalkRequest {
    /// List the directory at this path, without classifying it first.
    Open(String),
    /// Classify the entry at this path, and list it if it is a directory.
    Visit(String),
    /// Read the file at this path and hand back its count.
    Read(String),
    /// The walk is over: take its outcome.
    Finish,
}

/// The mathematical value of a request.
pub enum WalkRequestModel {
    Open(Seq<char>),
    Visit(Seq<char>),
    Read(Seq<char>),
    Finish,
}

impl View for WalkRequest {
    type V = WalkRequestModel;

    open spec fn view(&self) -> WalkRequestModel {
        match self {
            WalkRequest::Open(path) => WalkRequestModel::Open(path@),
            WalkRequest::Visit(path) => WalkRequestModel::Visit(path@),
            WalkRequest::Read(path) => WalkRequestModel::Read(path@),
            WalkRequest::Finish => WalkRequestModel::Finish,
        }
    }
}

/// What the driver hands back.
#[derive(Debug, PartialEq, Eq)]
pub enum WalkAnswer {
    /// The path is a directory, and these are the paths of its entries.
    Directory(Vec<String>),
    /// The path is a directory that could not be listed, and this is why.
    Unlistable(String),
    /// The path is no directory.
    File,
    /// What counting the file came to.
    Counted(Result<FileTotal, String>),
}

/// The mathematical value of an answer.
pub enum WalkAnswerModel {
    Directory(Seq<Seq<char>>),
    Unlistable(Seq<char>),
    File,
    Counted(Result<FileTotal, Seq<char>>),
}

impl View for WalkAnswer {
    type V = WalkAnswerModel;

    open spec fn view(&self) -> WalkAnswerModel {
        match self {
            WalkAnswer::Directory(entries) => WalkAnswerModel::Directory(entries.deep_view()),
            WalkAnswer::Unlistable(why) => WalkAnswerModel::Unlistable(why@),
            WalkAnswer::File => WalkAnswerModel::File,
            WalkAnswer::Counted(Ok(file)) => WalkAnswerModel::Counted(Ok(*file)),
            WalkAnswer::Counted(Err(message)) => WalkAnswerModel::Counted(Err(message@)),
        }
    }
}

/// What a walk found.
#[derive(Clone, Debug, PartialEq, Eq)]
pub struct WalkSummary {
    /// How many files the walk met.
    pub seen: usize,
    /// In the mode `Flatten`, the files that the walk met, in order.
    pub paths: Vec<String>,
    /// In the mode `CountRows`, what the counted files came to.
    pub total: Total,
}

/// The mathematical value of a summary.
pub struct Summary {
    pub seen: nat,
    pub paths: Seq<Seq<char>>,
    pub total: Tally,
}

impl View for WalkSummary {
    type V = Summary;

    open spec fn view(&self) -> Summary {
        Summary { seen: self.seen as nat, paths: self.paths.deep_view(), total: self.total@ }
    }
}

/// The message for a directory that could not be listed.
pub open spec fn directory_error(why: Seq<char>) -> Seq<char> {
    "Couldn't open directory: "@ + why
}

impl WalkerModel {
    /// A walk at its start: the root is to be listed, and nothing was found
    /// yet.
    pub open spec fn start(mode: WalkMode, exts: Seq<Seq<char>>, root: Seq<char>) -> WalkerModel {
        WalkerModel {
            mode,
            exts,
            phase: Phase::Opening,
            pending: seq![root],
            seen: 0,
            paths: Seq::empty(),
            total: Tally::zero(),
            failed: None,
        }
    }

    /// Whether the counts fit machine words.
    pub open spec fn fits(self) -> bool {
        self.seen <= usize::MAX && self.total.fits()
    }

    /// The path that the request is about.
    pub open spec fn top(self) -> Seq<char> {
        self.pending.last()
    }

    /// The state once the path on top is done with: the walk goes on with the
    /// entry below it, or is over when there is none.
    pub open spec fn leave(self) -> WalkerModel {
        let pending = self.pending.drop_last();
        WalkerModel {
            pending,
            phase: if pending.len() == 0 {
                Phase::Finished
            } else {
                Phase::Visiting
            },
            ..self
        }
    }

    /// The state once the path on top turned out to be a directory with these
    /// entries: they take its place, the first of them on top.
    pub open spec fn enter(self, entries: Seq<Seq<char>>) -> WalkerModel {
        let pending = self.pending.drop_last() + entries.reverse();
        WalkerModel {
            pending,
            phase: if pending.len() == 0 {
                Phase::Finished
            } else {
                Phase::Visiting
            },
            ..self
        }
    }

    /// The state once the walk failed.
    pub open spec fn fail(self, message: Seq<char>) -> WalkerModel {
        WalkerModel { failed: Some(message), phase: Phase::Finished, ..self }
    }

    /// The state once the path on top turned out to be a file.
    pub open spec fn meet_file(self) -> WalkerModel {
        let met = WalkerModel { seen: self.seen + 1, ..self };
        match self.mode {
            WalkMode::CountFiles => met.leave(),
            WalkMode::Flatten => WalkerModel { paths: self.paths.push(self.top()), ..met }.leave(),
            WalkMode::CountRows => if listed(self.top(), self.exts) {
                WalkerModel { phase: Phase::Reading, ..met }
            } else {
                met.leave()
            },
        }
    }

    /// One step of the walk. An answer that does not fit what was asked for
    /// is dropped.
    pub open spec fn step(self, answer: WalkAnswerModel) -> WalkerModel {
        match answer {
            WalkAnswerModel::Directory(entries) => if self.phase == Phase::Opening || self.phase
                == Phase::Visiting {
                self.enter(entries)
            } else {
                self
            },
            WalkAnswerModel::Unlistable(why) => if self.phase == Phase::Opening || self.phase
                == Phase::Visiting {
                self.fail(directory_error(why))
            } else {
                self
            },
            WalkAnswerModel::File => if self.phase == Phase::Visiting {
                self.meet_file()
            } else {
                self
            },
            WalkAnswerModel::Counted(result) => if self.phase == Phase::Reading {
                match result {
                    Ok(file) => WalkerModel { total: self.total.plus(file.tally()), ..self }.leave(),
                    Err(message) => self.fail(message),
                }
            } else {
                self
            },
        }
    }

    /// What the walk asks for in this state.
    pub open spec fn request(self) -> WalkRequestModel {
        match self.phase {
            Phase::Opening => WalkRequestModel::Open(self.top()),
            Phase::Visiting => WalkRequestModel::Visit(self.top()),
            Phase::Reading => WalkRequestModel::Read(self.top()),
            Phase::Finished => WalkRequestModel::Finish,
        }
    }

    /// How the walk ended: nothing while it goes on, then the message of the
    /// failure that ended it, or what it found.
    pub open spec fn outcome(self) -> Option<Result<Summary, Seq<char>>> {
        if self.phase != Phase::Finished {
            None
        } else {
            match self.failed {
                Some(message) => Some(Err(message)),
                None => Some(Ok(Summary { seen: self.seen, paths: self.paths, total: self.total })),
            }
        }
    }
}

/// The mathematical value of a walk's outcome.
pub open spec fn outcome_model(outcome: Option<Result<WalkSummary, String>>) -> Option<
    Result<Summary, Seq<char>>,
> {
    match outcome {
        None => None,
        Some(Ok(summary)) => Some(Ok(summary@)),
        Some(Err(message)) => Some(Err(message@)),
    }
}

fn start(mode: WalkMode, ext_vec: Vec<String>, path: &str, paths: Vec<String>) -> (walker: Walker)
    requires
        paths@.len() == 0,
    ensures
        walker.wf(),
        walker@ == WalkerModel::start(mode, ext_vec.deep_view(), path@),
{
    let mut pending: Vec<String> = Vec::new();
    pending.push(path.to_owned());
    let walker = Walker {
        mode,
        ext_vec,
        phase: Phase::Opening,
        pending,
        seen: 0,
        paths,
        total: Total { rows: 0, files: 0 },
        failed: None,
    };
    assert(walker@.pending =~= seq![path@]);
    assert(walker@.paths =~= Seq::empty());
    walker
}

/// Starts the walk that counts the files of the subtree at `path`.
pub fn count_all_files(path: &str) -> (walker: Walker)
    ensures
        walker.wf(),
        walker@ == WalkerModel::start(WalkMode::CountFiles, Seq::empty(), path@),
{
    let ext_vec: Vec<String> = Vec::new();
    assert(ext_vec.deep_view() =~= Seq::empty());
    start(WalkMode::CountFiles, ext_vec, path, Vec::new())
}

/// Starts the walk that lists the files of the subtree at `path`. `files` is
/// how many files are expected: room is made for as many, and the list may
/// well grow beyond.
pub fn extract_path_vec(path: &str, files: usize) -> (walker: Walker)
    ensures
        walker.wf(),
        walker@ == WalkerModel::start(WalkMode::Flatten, Seq::empty(), path@),
{
    let ext_vec: Vec<String> = Vec::new();
    assert(ext_vec.deep_view() =~= Seq::empty());
    start(WalkMode::Flatten, ext_vec, path, Vec::with_capacity(files))
}

/// Starts the walk that counts the rows of the files of the subtree at `path`
/// whose extension `ext_vec` lists.
pub fn count_dir(path: &str, ext_vec: Vec<String>) -> (walker: Walker)
    ensures
        walker.wf(),
        walker@ == WalkerModel::start(WalkMode::CountRows, ext_vec.deep_view(), path@),
{
    start(WalkMode::CountRows, ext_vec, path, Vec::new())
}

fn directory_failure(why: &str) -> (message: String)
    ensures
        message@ == directory_error(why@),
{
    let mut message = String::from_str("Couldn't open directory: ");
    message.append(why);
    message
}

fn push_reversed(pending: &mut Vec<String>, entries: Vec<String>)
    ensures
        final(pending).deep_view() == old(pending).deep_view() + entries.deep_view().reverse(),
{
    let mut entries = entries;
    let ghost all = entries.deep_view();
    let ghost before = pending.deep_view();
    assert(pending.deep_view() =~= before + all.skip(all.len() as int).reverse());
    while entries.len() > 0
        invariant
            entries.len() <= all.len(),
            entries.deep_view() == all.take(entries.len() as int),
            pending.deep_view() == before + all.skip(entries.len() as int).reverse(),
        decreases entries.len(),
    {
        let ghost rest = entries.deep_view();
        let ghost stacked = pending.deep_view();
        match entries.pop() {
            Some(entry) => {
                assert(entry@ == rest.last());
                pending.push(entry);
                assert(entries.deep_view() =~= all.take(entries.len() as int));
                assert(pending.deep_view() =~= stacked.push(entry@));
                assert(stacked.push(entry@) =~= before + all.skip(entries.len() as int).reverse());
            },
            None => {},
        }
    }
    assert(all.skip(0) =~= all);
}

impl Walker {
    /// A state is well formed when, unless the walk is over, there is a path
    /// on top of the pending entries.
    pub open spec fn wf(&self) -> bool {
        self.phase != Phase::Finished ==> self.pending.len() > 0
    }

    fn leave(&mut self) -> (top: String)
        requires
            old(self).pending.len() > 0,
        ensures
            final(self)@ == old(self)@.leave(),
            top@ == old(self)@.top(),
            final(self).wf(),
    {
        let ghost before = self.pending.deep_view();
        let top = self.pending.pop();
        assert(self.pending.deep_view() =~= before.drop_last());
        self.phase = if self.pending.len() == 0 {
            Phase::Finished
        } else {
            Phase::Visiting
        };
        match top {
            Some(path) => path,
            None => String::new(),
        }
    }

    /// What the walk asks for in this state.
    pub fn request(&self) -> (request: WalkRequest)
        requires
            self.wf(),
        ensures
            request@ == self@.request(),
    {
        match self.phase {
            Phase::Finished => WalkRequest::Finish,
            Phase::Opening => WalkRequest::Open(self.pending[self.pending.len() - 1].clone()),
            Phase::Visiting => WalkRequest::Visit(self.pending[self.pending.len() - 1].clone()),
            Phase::Reading => WalkRequest::Read(self.pending[self.pending.len() - 1].clone()),
        }
    }

    /// One step of the walk on what the driver hands back; returns what the
    /// walk asks for next.
    pub fn step(&mut self, answer: WalkAnswer) -> (request: WalkRequest)
        requires
            old(self).wf(),
            old(self)@.step(answer@).fits(),
        ensures
            final(self).wf(),
            final(self)@ == old(self)@.step(answer@),
            request@ == final(self)@.request(),
    {
        let ghost before = self@;
        match answer {
            WalkAnswer::Directory(entries) => {
                if self.phase == Phase::Opening || self.phase == Phase::Visiting {
                    let ghost below = self.pending.deep_view().drop_last();
                    self.pending.pop();
                    assert(self.pending.deep_view() =~= below);
                    push_reversed(&mut self.pending, entries);
                    self.phase = if self.pending.len() == 0 {
                        Phase::Finished
                    } else {
                        Phase::Visiting
                    };
                }
            },
            WalkAnswer::Unlistable(why) => {
                if self.phase == Phase::Opening || self.phase == Phase::Visiting {
                    self.failed = Some(directory_failure(why.as_str()));
                    self.phase = Phase::Finished;
                }
            },
            WalkAnswer::File => {
                if self.phase == Phase::Visiting {
                    self.seen = self.seen + 1;
                    match self.mode {
                        WalkMode::CountFiles => {
                            self.leave();
                        },
                        WalkMode::Flatten => {
                            let ghost found = self.paths.deep_view();
                            let path = self.leave();
                            self.paths.push(path);
                            assert(self.paths.deep_view() =~= found.push(before.top()));
                        },
                        WalkMode::CountRows => {
                            let last = self.pending.len() - 1;
                            assert(self.pending.deep_view()[last as int] == self.pending@[last as int]@);
                            if has_listed_extension(self.pending[last].as_str(), &self.ext_vec) {
                                self.phase = Phase::Reading;
                            } else {
                                self.leave();
                            }
                        },
                    }
                }
            },
            WalkAnswer::Counted(result) => {
                if self.phase == Phase::Reading {
                    match result {
                        Ok(file) => {
                            self.total = self.total.plus_file(file);
                            self.leave();
                        },
                        Err(message) => {
                            self.failed = Some(message);
                            self.phase = Phase::Finished;
                        },
                    }
                }
            },
        }
        self.request()
    }

    /// How the walk ended: nothing while it goes on, then the message of the
    /// failure that ended it, or what it found.
    pub fn finish(self) -> (outcome: Option<Result<WalkSummary, String>>)
        ensures
            outcome_model(outcome) == self@.outcome(),
    {
        if self.phase != Phase::Finished {
            None
        } else {
            match self.failed {
                Some(message) => Some(Err(message)),
                None => Some(Ok(WalkSummary { seen: self.seen, paths: self.paths, total: self.total })),
            }
        }
    }
}

} // verus!
