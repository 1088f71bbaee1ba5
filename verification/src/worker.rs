//! The batch worker: counts the files of one batch, one read at a time.
//!
//! The worker never touches a file. It asks its driver to read one, is told
//! what the count of that file came to, and goes on; a file that cannot be
//! counted costs a warning and nothing else.

use crate::extension::{has_listed_extension, listed};
use crate::total::{sum_files, FileTotal, Tally, Total};
use vstd::prelude::*;

verus! {

/// The state of a worker on the batch `[from, to)`: the files before `next`
/// are done, and `total` is what they came to.
#[derive(Clone, Copy, Debug, PartialEq, Eq)]
pub struct BatchWorker {
    pub from: usize,
    pub next: usize,
    pub to: usize,
    pub total: Total,
}

/// The mathematical value of a worker's state.
pub struct WorkerModel {
    pub from: nat,
    pub next: nat,
    pub to: nat,
    pub total: Tally,
}

impl View for BatchWorker {
    type V = WorkerModel;

    open spec fn view(&self) -> WorkerModel {
        WorkerModel {
            from: self.from as nat,
            next: self.next as nat,
            to: self.to as nat,
            total: self.total@,
        }
    }
}

/// What a worker asks of its driver.
#[derive(Clone, Debug, PartialEq, Eq)]
pub enum WorkerRequest {
    /// Read the file at this index of the path list and hand back its count.
    Read(usize),
    /// The batch is exhausted: send this total. Nothing follows.
    Report(Total),
}

/// The mathematical value of a request.
pub enum RequestModel {
    Read(nat),
    Report(Tally),
}

impl View for WorkerRequest {
    type V = RequestModel;

    open spec fn view(&self) -> RequestModel {
        match self {
            WorkerRequest::Read(index) => RequestModel::Read(*index as nat),
            WorkerRequest::Report(total) => RequestModel::Report(total@),
        }
    }
}

/// One step of a worker: a warning to send at once, if the file just handed
/// back could not be counted, and what to do next.
#[derive(Clone, Debug, PartialEq, Eq)]
pub struct WorkerStep {
    pub warning: Option<String>,
    pub request: WorkerRequest,
}

/// The mathematical value of a step.
pub struct StepModel {
    pub warning: Option<Seq<char>>,
    pub request: RequestModel,
}

impl View for WorkerStep {
    type V = StepModel;

    open spec fn view(&self) -> StepModel {
        StepModel {
            warning: match self.warning {
                Some(message) => Some(message@),
                None => None,
            },
            request: self.request@,
        }
    }
}

/// The mathematical value of what the driver hands back: nothing, the count of
/// the file that was asked for, or the message that says why it has none.
pub open spec fn counted_model(counted: Option<Result<FileTotal, String>>) -> Option<
    Result<FileTotal, Seq<char>>,
> {
    match counted {
        None => None,
        Some(Ok(file)) => Some(Ok(file)),
        Some(Err(message)) => Some(Err(message@)),
    }
}

/// The first index in `[i, to)` whose path the extension filter accepts, or
/// `to` when there is none.
pub open spec fn next_wanted(paths: Seq<Seq<char>>, exts: Seq<Seq<char>>, i: nat, to: nat) -> nat
    decreases to - i,
{
    if i >= to {
        to
    } else if listed(paths[i as int], exts) {
        i
    } else {
        next_wanted(paths, exts, i + 1, to)
    }
}

/// Whether the worker waits for the count of the file at `next`.
pub open spec fn awaits(w: WorkerModel, paths: Seq<Seq<char>>, exts: Seq<Seq<char>>) -> bool {
    w.next < w.to && listed(paths[w.next as int], exts)
}

/// The state after taking in what the driver handed back, and the warning
/// that it gives rise to. A count adds to the total; a message becomes a
/// warning; either way the file is done. What was not asked for is dropped.
pub open spec fn worker_record(
    w: WorkerModel,
    paths: Seq<Seq<char>>,
    exts: Seq<Seq<char>>,
    counted: Option<Result<FileTotal, Seq<char>>>,
) -> (WorkerModel, Option<Seq<char>>) {
    if awaits(w, paths, exts) {
        match counted {
            Some(Ok(file)) => (
                WorkerModel { next: w.next + 1, total: w.total.plus(file.tally()), ..w },
                None,
            ),
            Some(Err(message)) => (WorkerModel { next: w.next + 1, ..w }, Some(message)),
            None => (w, None),
        }
    } else {
        (w, None)
    }
}

/// One step of the worker: take in what was handed back, pass over the paths
/// that the extension filter rejects, and ask for the next file, or report
/// the total when the batch is exhausted.
pub open spec fn worker_step(
    w: WorkerModel,
    paths: Seq<Seq<char>>,
    exts: Seq<Seq<char>>,
    counted: Option<Result<FileTotal, Seq<char>>>,
) -> (WorkerModel, StepModel) {
    let (taken, warning) = worker_record(w, paths, exts, counted);
    let next = next_wanted(paths, exts, taken.next, taken.to);
    let after = WorkerModel { next, ..taken };
    let request = if next < after.to {
        RequestModel::Read(next)
    } else {
        RequestModel::Report(after.total)
    };
    (after, StepModel { warning, request })
}

impl BatchWorker {
    /// A state is well formed when `next` lies in the batch and no more files
    /// were counted than were passed.
    pub open spec fn wf(&self) -> bool {
        self.from <= self.next <= self.to && self.total.files <= self.next - self.from
    }

    /// A worker at the start of the batch `[from, to)`.
    pub fn new(from: usize, to: usize) -> (worker: BatchWorker)
        requires
            from <= to,
        ensures
            worker.wf(),
            worker@ == (WorkerModel { from: from as nat, next: from as nat, to: to as nat, total: Tally::zero() }),
    {
        BatchWorker { from, next: from, to, total: Total { rows: 0, files: 0 } }
    }
}

proof fn lemma_next_wanted_bounds(paths: Seq<Seq<char>>, exts: Seq<Seq<char>>, i: nat, to: nat)
    requires
        i <= to,
    ensures
        i <= next_wanted(paths, exts, i, to) <= to,
        next_wanted(paths, exts, i, to) < to ==> listed(
            paths[next_wanted(paths, exts, i, to) as int],
            exts,
        ),
        forall|j: int| i <= j < next_wanted(paths, exts, i, to) ==> !listed(#[trigger] paths[j], exts),
    decreases to - i,
{
    if i < to && !listed(paths[i as int], exts) {
        lemma_next_wanted_bounds(paths, exts, i + 1, to);
    }
}

/// One step of the batch worker on its share of `paths`.
///
/// `counted` is what the driver hands back: nothing at the first call, then
/// the result of counting the file that the step before asked for.
pub fn count_dirs(
    worker: &mut BatchWorker,
    paths: &Vec<String>,
    ext_vec: &Vec<String>,
    counted: Option<Result<FileTotal, String>>,
) -> (step: WorkerStep)
    requires
        old(worker).wf(),
        old(worker).to <= paths.len(),
        counted matches Some(Ok(file)) ==> !file.ignore ==> old(worker).total.rows + file.rows
            <= usize::MAX,
    ensures
        final(worker).wf(),
        (final(worker)@, step@) == worker_step(
            old(worker)@,
            paths.deep_view(),
            ext_vec.deep_view(),
            counted_model(counted),
        ),
{
    let ghost before = worker@;
    let ghost all = paths.deep_view();
    let ghost exts = ext_vec.deep_view();
    let mut warning: Option<String> = None;
    if worker.next < worker.to {
        assert(all[worker.next as int] == paths@[worker.next as int]@);
        if has_listed_extension(paths[worker.next].as_str(), ext_vec) {
            match counted {
                Some(Ok(file)) => {
                    worker.total = worker.total.plus_file(file);
                    worker.next = worker.next + 1;
                },
                Some(Err(message)) => {
                    warning = Some(message);
                    worker.next = worker.next + 1;
                },
                None => {},
            }
        }
    }
    let ghost taken = worker@;
    assert(taken == worker_record(before, all, exts, counted_model(counted)).0);
    proof {
        lemma_next_wanted_bounds(all, exts, taken.next, taken.to);
    }
    while worker.next < worker.to
        invariant_except_break
            worker.wf(),
            worker.to <= paths.len(),
            all == paths.deep_view(),
            exts == ext_vec.deep_view(),
            worker@ == (WorkerModel { next: worker.next as nat, ..taken }),
            next_wanted(all, exts, worker.next as nat, worker.to as nat) == next_wanted(
                all,
                exts,
                taken.next,
                taken.to,
            ),
        ensures
            worker.wf(),
            worker@ == (WorkerModel {
                next: next_wanted(all, exts, taken.next, taken.to),
                ..taken
            }),
        decreases worker.to - worker.next,
    {
        assert(all[worker.next as int] == paths@[worker.next as int]@);
        if has_listed_extension(paths[worker.next].as_str(), ext_vec) {
            break ;
        }
        worker.next = worker.next + 1;
    }
    let request = if worker.next < worker.to {
        WorkerRequest::Read(worker.next)
    } else {
        WorkerRequest::Report(worker.total)
    };
    WorkerStep { warning, request }
}

/// How many paths in `[i, to)` the extension filter accepts.
pub open spec fn wanted_count(paths: Seq<Seq<char>>, exts: Seq<Seq<char>>, i: nat, to: nat) -> nat
    decreases to - i,
{
    if i >= to {
        0
    } else if listed(paths[i as int], exts) {
        1 + wanted_count(paths, exts, i + 1, to)
    } else {
        wanted_count(paths, exts, i + 1, to)
    }
}

/// The counts among what was handed back, in order.
pub open spec fn counted_files(results: Seq<Result<FileTotal, Seq<char>>>) -> Seq<FileTotal>
    decreases results.len(),
{
    if results.len() == 0 {
        Seq::empty()
    } else {
        match results.last() {
            Ok(file) => counted_files(results.drop_last()).push(file),
            Err(_) => counted_files(results.drop_last()),
        }
    }
}

/// The messages among what was handed back, in order.
pub open spec fn failures(results: Seq<Result<FileTotal, Seq<char>>>) -> Seq<Seq<char>>
    decreases results.len(),
{
    if results.len() == 0 {
        Seq::empty()
    } else {
        match results.last() {
            Ok(_) => failures(results.drop_last()),
            Err(message) => failures(results.drop_last()).push(message),
        }
    }
}

/// A run of a worker: where it stands, the warnings it gave so far, and what
/// it asked for last.
pub struct WorkerRun {
    pub state: WorkerModel,
    pub warnings: Seq<Seq<char>>,
    pub request: RequestModel,
}

/// The run of a worker on the batch `[from, to)` whose driver hands back
/// `results`, one for each file asked for: a first step with nothing, then a
/// step for each result.
pub open spec fn worker_run(
    paths: Seq<Seq<char>>,
    exts: Seq<Seq<char>>,
    from: nat,
    to: nat,
    results: Seq<Result<FileTotal, Seq<char>>>,
) -> WorkerRun
    decreases results.len(),
{
    if results.len() == 0 {
        let start = WorkerModel { from, next: from, to, total: Tally::zero() };
        let (state, step) = worker_step(start, paths, exts, None);
        WorkerRun { state, warnings: Seq::empty(), request: step.request }
    } else {
        let before = worker_run(paths, exts, from, to, results.drop_last());
        let (state, step) = worker_step(before.state, paths, exts, Some(results.last()));
        WorkerRun {
            state,
            warnings: match step.warning {
                Some(message) => before.warnings.push(message),
                None => before.warnings,
            },
            request: step.request,
        }
    }
}

proof fn lemma_wanted_count_skips(paths: Seq<Seq<char>>, exts: Seq<Seq<char>>, i: nat, to: nat)
    requires
        i <= to,
    ensures
        wanted_count(paths, exts, next_wanted(paths, exts, i, to), to) == wanted_count(
            paths,
            exts,
            i,
            to,
        ),
    decreases to - i,
{
    if i < to && !listed(paths[i as int], exts) {
        lemma_wanted_count_skips(paths, exts, i + 1, to);
    }
}

proof fn lemma_worker_run(
    paths: Seq<Seq<char>>,
    exts: Seq<Seq<char>>,
    from: nat,
    to: nat,
    results: Seq<Result<FileTotal, Seq<char>>>,
)
    requires
        from <= to <= paths.len(),
        results.len() <= wanted_count(paths, exts, from, to),
    ensures
        ({
            let run = worker_run(paths, exts, from, to, results);
            &&& run.state.from == from
            &&& run.state.to == to
            &&& from <= run.state.next <= to
            &&& run.state.next < to ==> listed(paths[run.state.next as int], exts)
            &&& wanted_count(paths, exts, run.state.next, to) + results.len() == wanted_count(
                paths,
                exts,
                from,
                to,
            )
            &&& run.state.total == sum_files(counted_files(results))
            &&& run.warnings == failures(results)
            &&& run.request == if run.state.next < to {
                RequestModel::Read(run.state.next)
            } else {
                RequestModel::Report(run.state.total)
            }
        }),
    decreases results.len(),
{
    if results.len() == 0 {
        lemma_next_wanted_bounds(paths, exts, from, to);
        lemma_wanted_count_skips(paths, exts, from, to);
    } else {
        lemma_worker_run(paths, exts, from, to, results.drop_last());
        let before = worker_run(paths, exts, from, to, results.drop_last());
        let next = before.state.next;
        assert(awaits(before.state, paths, exts));
        lemma_next_wanted_bounds(paths, exts, next + 1, to);
        lemma_wanted_count_skips(paths, exts, next + 1, to);
        if let Ok(file) = results.last() {
            let earlier = counted_files(results.drop_last());
            assert(earlier.push(file).drop_last() =~= earlier);
        }
    }
}

/// A worker reports exactly its batch. Whatever the reads bring, once a result
/// was handed back for each path of the batch that the extension filter
/// accepts, the worker reports the sum of the counts among them, and has
/// warned of each failure among them, in order: a file that cannot be counted
/// stops nothing and adds nothing.
pub proof fn law_worker_reports_its_batch(
    paths: Seq<Seq<char>>,
    exts: Seq<Seq<char>>,
    from: nat,
    to: nat,
    results: Seq<Result<FileTotal, Seq<char>>>,
)
    requires
        from <= to <= paths.len(),
        results.len() == wanted_count(paths, exts, from, to),
    ensures
        worker_run(paths, exts, from, to, results).request == RequestModel::Report(
            sum_files(counted_files(results)),
        ),
        worker_run(paths, exts, from, to, results).warnings == failures(results),
{
    lemma_worker_run(paths, exts, from, to, results);
    let run = worker_run(paths, exts, from, to, results);
    if run.state.next < to {
        assert(wanted_count(paths, exts, run.state.next, to) >= 1);
    }
}

/// Until a result was handed back for each accepted path of the batch, the
/// worker asks for a file: one of the batch, that the extension filter
/// accepts.
pub proof fn law_worker_asks_for_wanted_files(
    paths: Seq<Seq<char>>,
    exts: Seq<Seq<char>>,
    from: nat,
    to: nat,
    results: Seq<Result<FileTotal, Seq<char>>>,
)
    requires
        from <= to <= paths.len(),
        results.len() < wanted_count(paths, exts, from, to),
    ensures
        worker_run(paths, exts, from, to, results).request matches RequestModel::Read(index)
            && from <= index < to && listed(paths[index as int], exts),
{
    lemma_worker_run(paths, exts, from, to, results);
}

/// What the file at index `i` of the path list adds to a count, given what
/// counting each file of the list comes to: its count, where the extension
/// filter accepts the path and the file can be counted, and else nothing.
pub open spec fn contribution(
    paths: Seq<Seq<char>>,
    exts: Seq<Seq<char>>,
    outcomes: Seq<Result<FileTotal, Seq<char>>>,
    i: int,
) -> FileTotal {
    match outcomes[i] {
        Ok(file) if listed(paths[i], exts) => file,
        _ => FileTotal { rows: 0, ignore: true },
    }
}

/// What the files of the batch `[from, to)` add, file by file.
pub open spec fn contributions(
    paths: Seq<Seq<char>>,
    exts: Seq<Seq<char>>,
    outcomes: Seq<Result<FileTotal, Seq<char>>>,
    from: nat,
    to: nat,
) -> Seq<FileTotal> {
    Seq::new((to - from) as nat, |k: int| contribution(paths, exts, outcomes, from + k))
}

/// What a driver hands back to the worker of the batch `[from, to)`: for each
/// path of the batch that the extension filter accepts, in order, what
/// counting the file comes to.
pub open spec fn handed_back(
    paths: Seq<Seq<char>>,
    exts: Seq<Seq<char>>,
    outcomes: Seq<Result<FileTotal, Seq<char>>>,
    from: nat,
    to: nat,
) -> Seq<Result<FileTotal, Seq<char>>>
    decreases to,
{
    if to <= from {
        Seq::empty()
    } else if listed(paths[to - 1], exts) {
        handed_back(paths, exts, outcomes, from, (to - 1) as nat).push(outcomes[to - 1])
    } else {
        handed_back(paths, exts, outcomes, from, (to - 1) as nat)
    }
}

proof fn lemma_wanted_count_last(paths: Seq<Seq<char>>, exts: Seq<Seq<char>>, i: nat, to: nat)
    requires
        i < to,
    ensures
        wanted_count(paths, exts, i, to) == wanted_count(paths, exts, i, (to - 1) as nat) + if listed(
            paths[to - 1],
            exts,
        ) {
            1nat
        } else {
            0nat
        },
    decreases to - i,
{
    if i + 1 < to {
        lemma_wanted_count_last(paths, exts, i + 1, to);
    } else {
        assert(wanted_count(paths, exts, i + 1, to) == 0);
        assert(wanted_count(paths, exts, i, i) == 0);
    }
}

proof fn lemma_handed_back(
    paths: Seq<Seq<char>>,
    exts: Seq<Seq<char>>,
    outcomes: Seq<Result<FileTotal, Seq<char>>>,
    from: nat,
    to: nat,
)
    requires
        from <= to,
    ensures
        handed_back(paths, exts, outcomes, from, to).len() == wanted_count(paths, exts, from, to),
        sum_files(counted_files(handed_back(paths, exts, outcomes, from, to))) == sum_files(
            contributions(paths, exts, outcomes, from, to),
        ),
    decreases to,
{
    let all = contributions(paths, exts, outcomes, from, to);
    if from < to {
        let before = (to - 1) as nat;
        lemma_handed_back(paths, exts, outcomes, from, before);
        lemma_wanted_count_last(paths, exts, from, to);
        assert(all.drop_last() =~= contributions(paths, exts, outcomes, from, before));
        assert(all.last() == contribution(paths, exts, outcomes, to - 1));
        let earlier = handed_back(paths, exts, outcomes, from, before);
        if listed(paths[to - 1], exts) {
            assert(earlier.push(outcomes[to - 1]).drop_last() =~= earlier);
            if let Ok(file) = outcomes[to - 1] {
                let counted = counted_files(earlier);
                assert(counted.push(file).drop_last() =~= counted);
            }
        }
    } else {
        assert(all =~= Seq::empty());
    }
}

/// What a worker reports is what the files of its batch add. Handed back what
/// counting each accepted file of its batch comes to, the worker reports the
/// sum of what the files of the batch add, one by one.
pub proof fn law_worker_report_is_batch_sum(
    paths: Seq<Seq<char>>,
    exts: Seq<Seq<char>>,
    outcomes: Seq<Result<FileTotal, Seq<char>>>,
    from: nat,
    to: nat,
)
    requires
        from <= to <= paths.len(),
        outcomes.len() == paths.len(),
    ensures
        worker_run(
            paths,
            exts,
            from,
            to,
            handed_back(paths, exts, outcomes, from, to),
        ).request == RequestModel::Report(
            sum_files(contributions(paths, exts, outcomes, from, to)),
        ),
{
    lemma_handed_back(paths, exts, outcomes, from, to);
    law_worker_reports_its_batch(
        paths,
        exts,
        from,
        to,
        handed_back(paths, exts, outcomes, from, to),
    );
}

} // verus!
