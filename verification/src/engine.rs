//! The engine as a whole: that a parallel run arrives at what the direct
//! count finds.

use crate::aggregate::{
    aggregator_run, in_time, law_aggregator_sums_reports, reported, AggregatorRequestModel,
};
use crate::partition::{batch_from, batch_sums, batch_to, law_batch_sums_add_up};
use crate::total::{law_sum_totals_ignores_order, sum_totals, FileTotal, Tally};
use crate::tree::{
    file_outcomes, file_results, found, law_rows_are_sum_of_files,
    law_results_are_contributions, Node,
};
use crate::walk::WalkMode;
use crate::worker::{
    contributions, handed_back, law_worker_report_is_batch_sum, worker_run, RequestModel,
};
use vstd::prelude::*;

verus! {

/// What the worker of the batch `[from, to)` reports, when its driver hands
/// back what counting each accepted file of the batch comes to.
pub open spec fn worker_report(
    paths: Seq<Seq<char>>,
    exts: Seq<Seq<char>>,
    outcomes: Seq<Result<FileTotal, Seq<char>>>,
    from: nat,
    to: nat,
) -> Tally {
    match worker_run(paths, exts, from, to, handed_back(paths, exts, outcomes, from, to)).request {
        RequestModel::Report(total) => total,
        RequestModel::Read(_) => Tally::zero(),
    }
}

/// What the workers report, worker by worker, when the path list is cut into
/// one batch for each of `cores` workers.
pub open spec fn worker_reports(
    paths: Seq<Seq<char>>,
    exts: Seq<Seq<char>>,
    outcomes: Seq<Result<FileTotal, Seq<char>>>,
    cores: nat,
) -> Seq<Tally> {
    Seq::new(
        cores,
        |i: int|
            worker_report(
                paths,
                exts,
                outcomes,
                batch_from(paths.len(), cores, i as nat),
                batch_to(paths.len(), cores, i as nat),
            ),
    )
}

/// What the workers report adds up to what the direct count finds. Over the
/// list that the listing walk makes of a subtree, cut into one batch for each
/// worker, the sum of the workers' reports is the total of the walk that
/// counts rows.
pub proof fn law_reports_add_up_to_direct_count(exts: Seq<Seq<char>>, root: Node, cores: nat)
    requires
        cores >= 1,
    ensures
        sum_totals(
            worker_reports(
                found(WalkMode::Flatten, exts, root).paths,
                exts,
                file_outcomes(root),
                cores,
            ),
        ) == found(WalkMode::CountRows, exts, root).total,
{
    let paths = found(WalkMode::Flatten, exts, root).paths;
    let outcomes = file_outcomes(root);
    let results = file_results(exts, root);
    let files = paths.len();
    law_results_are_contributions(exts, root);
    law_rows_are_sum_of_files(exts, root);
    law_batch_sums_add_up(results, cores);
    let reports = worker_reports(paths, exts, outcomes, cores);
    let sums = batch_sums(results, cores);
    assert forall|i: int| 0 <= i < cores implies reports[i] == sums[i] by {
        let from = batch_from(files, cores, i as nat);
        let to = batch_to(files, cores, i as nat);
        crate::partition::law_batches_are_consecutive(files, cores);
        assert(from <= batch_to(files, cores, i as nat));
        law_worker_report_is_batch_sum(paths, exts, outcomes, from, to);
        assert(contributions(paths, exts, outcomes, from, to) =~= results.subrange(
            from as int,
            to as int,
        ));
    }
    assert(reports =~= sums);
}

/// A parallel run arrives at what the direct count finds. Whatever the order
/// in which the workers' reports reach the aggregator, and whatever warnings
/// come between them, once all have come the aggregator finishes with the
/// total of the walk that counts rows.
pub proof fn law_parallel_run_agrees_with_direct_count(
    exts: Seq<Seq<char>>,
    root: Node,
    cores: nat,
    messages: Seq<Result<Tally, Seq<char>>>,
)
    requires
        cores >= 1,
        in_time(cores, messages),
        reported(messages).to_multiset() == worker_reports(
            found(WalkMode::Flatten, exts, root).paths,
            exts,
            file_outcomes(root),
            cores,
        ).to_multiset(),
    ensures
        aggregator_run(cores, messages).request == AggregatorRequestModel::Finish(
            found(WalkMode::CountRows, exts, root).total,
        ),
{
    let reports = worker_reports(
        found(WalkMode::Flatten, exts, root).paths,
        exts,
        file_outcomes(root),
        cores,
    );
    law_reports_add_up_to_direct_count(exts, root, cores);
    law_aggregator_sums_reports(cores, messages);
    law_sum_totals_ignores_order(reported(messages), reports);
    vstd::seq_lib::to_multiset_len(reported(messages));
    vstd::seq_lib::to_multiset_len(reports);
}

} // verus!
