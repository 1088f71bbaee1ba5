//! Static partitioning of a flat path list among a fixed number of workers.

use crate::total::{law_sum_files_concat, sum_files, sum_totals, FileTotal, Tally};
use vstd::prelude::*;

verus! {

/// A contiguous range `[from, to)` of indices into the flat path list, the
/// share of one worker.
#[derive(Clone, Copy, Debug, PartialEq, Eq, Structural)]
pub struct PathBatch {
    pub from: usize,
    pub to: usize,
}

impl PathBatch {
    /// Whether index `k` lies in the batch.
    pub open spec fn contains(self, k: int) -> bool {
        self.from <= k < self.to
    }
}

/// Where the batch of worker `i` begins, for `files` paths and `cores`
/// workers.
pub open spec fn batch_from(files: nat, cores: nat, i: nat) -> nat {
    i * (files / cores)
}

/// Where the batch of worker `i` ends. The last worker takes the remainder of
/// the division as well.
pub open spec fn batch_to(files: nat, cores: nat, i: nat) -> nat {
    if i + 1 == cores {
        (i + 1) * (files / cores) + files % cores
    } else {
        (i + 1) * (files / cores)
    }
}

/// Whether index `k` lies in the batch of worker `i`.
pub open spec fn in_batch(files: nat, cores: nat, i: nat, k: int) -> bool {
    batch_from(files, cores, i) <= k < batch_to(files, cores, i)
}

proof fn lemma_batch_bounds(files: nat, cores: nat, i: nat)
    requires
        i < cores,
    ensures
        batch_from(files, cores, i) <= batch_to(files, cores, i) <= files,
        i + 1 < cores ==> batch_to(files, cores, i) == batch_from(files, cores, (i + 1) as nat),
        i + 1 == cores ==> batch_to(files, cores, i) == files,
        i == 0 ==> batch_from(files, cores, i) == 0,
{
    let size = files / cores;
    assert(i * size <= (i + 1) * size <= cores * size) by (nonlinear_arith)
        requires
            i < cores,
            size >= 0,
    ;
    assert(cores * size + files % cores == files) by (nonlinear_arith)
        requires
            cores > 0,
            size == files / cores,
    ;
    assert(0 <= files % cores);
}

proof fn lemma_batches_ascend(files: nat, cores: nat, i: nat, j: nat)
    requires
        i < j < cores,
    ensures
        batch_to(files, cores, i) <= batch_from(files, cores, j),
{
    let size = files / cores;
    assert((i + 1) * size <= j * size) by (nonlinear_arith)
        requires
            i < j,
            size >= 0,
    ;
}

proof fn lemma_batches_cover(files: nat, cores: nat, i: nat, k: int)
    requires
        i < cores,
        0 <= k < batch_to(files, cores, i),
    ensures
        exists|j: nat| j <= i && in_batch(files, cores, j, k),
    decreases i,
{
    lemma_batch_bounds(files, cores, i);
    if batch_from(files, cores, i) <= k {
        assert(in_batch(files, cores, i, k));
    } else {
        lemma_batch_bounds(files, cores, (i - 1) as nat);
        lemma_batches_cover(files, cores, (i - 1) as nat, k);
    }
}

/// The size of every batch but the last, which may be larger.
pub fn batch_size(files: usize, cores: usize) -> (size: usize)
    requires
        cores >= 1,
    ensures
        size == files / cores,
{
    files / cores
}

/// The batch of worker `i` among `cores` workers over `files` paths.
pub fn batch(files: usize, cores: usize, i: usize) -> (b: PathBatch)
    requires
        i < cores,
    ensures
        b.from == batch_from(files as nat, cores as nat, i as nat),
        b.to == batch_to(files as nat, cores as nat, i as nat),
        b.from <= b.to <= files,
{
    let batch_size = batch_size(files, cores);
    proof {
        lemma_batch_bounds(files as nat, cores as nat, i as nat);
        assert(batch_size * i == i * batch_size && batch_size * (i + 1) == (i + 1) * batch_size)
            by (nonlinear_arith);
    }
    let from = batch_size * i;
    if i < cores - 1 {
        PathBatch { from, to: batch_size * (i + 1) }
    } else {
        PathBatch { from, to: batch_size * (i + 1) + files % cores }
    }
}

/// The batches of all `cores` workers over `files` paths, worker by worker.
pub fn partition(files: usize, cores: usize) -> (batches: Vec<PathBatch>)
    requires
        cores >= 1,
    ensures
        batches.len() == cores,
        forall|i: int|
            0 <= i < cores ==> {
                &&& (#[trigger] batches[i]).from == batch_from(files as nat, cores as nat, i as nat)
                &&& batches[i].to == batch_to(files as nat, cores as nat, i as nat)
            },
{
    let mut batches: Vec<PathBatch> = Vec::new();
    let mut i: usize = 0;
    while i < cores
        invariant
            i <= cores,
            batches.len() == i,
            forall|j: int|
                0 <= j < i ==> {
                    &&& (#[trigger] batches[j]).from == batch_from(
                        files as nat,
                        cores as nat,
                        j as nat,
                    )
                    &&& batches[j].to == batch_to(files as nat, cores as nat, j as nat)
                },
        decreases cores - i,
    {
        batches.push(batch(files, cores, i));
        i = i + 1;
    }
    batches
}

/// The batches tile the path list: the first begins at 0, each begins where
/// the one before it ends, and the last ends at `files`.
pub proof fn law_batches_are_consecutive(files: nat, cores: nat)
    requires
        cores >= 1,
    ensures
        batch_from(files, cores, 0) == 0,
        batch_to(files, cores, (cores - 1) as nat) == files,
        forall|i: nat|
            i < cores ==> batch_from(files, cores, i) <= #[trigger] batch_to(files, cores, i)
                <= files,
        forall|i: nat|
            i + 1 < cores ==> #[trigger] batch_to(files, cores, i) == batch_from(
                files,
                cores,
                i + 1,
            ),
{
    lemma_batch_bounds(files, cores, 0nat);
    lemma_batch_bounds(files, cores, (cores - 1) as nat);
    assert forall|i: nat| i < cores implies batch_from(files, cores, i) <= #[trigger] batch_to(
        files,
        cores,
        i,
    ) <= files by {
        lemma_batch_bounds(files, cores, i);
    }
    assert forall|i: nat| i + 1 < cores implies #[trigger] batch_to(files, cores, i) == batch_from(
        files,
        cores,
        i + 1,
    ) by {
        lemma_batch_bounds(files, cores, i);
    }
}

/// The batches cover exactly the indices `0 .. files`: such an index lies in
/// the batch of some worker, and no batch holds any other index.
pub proof fn law_batches_cover(files: nat, cores: nat, k: int)
    requires
        cores >= 1,
    ensures
        (0 <= k < files) <==> (exists|i: nat| i < cores && in_batch(files, cores, i, k)),
{
    if 0 <= k < files {
        let last = (cores - 1) as nat;
        lemma_batch_bounds(files, cores, last);
        lemma_batches_cover(files, cores, last, k);
        let j = choose|j: nat| j <= last && in_batch(files, cores, j, k);
        assert(j < cores && in_batch(files, cores, j, k));
    }
    if exists|i: nat| i < cores && in_batch(files, cores, i, k) {
        let i = choose|i: nat| i < cores && in_batch(files, cores, i, k);
        lemma_batch_bounds(files, cores, i);
    }
}

/// The batches are pairwise disjoint: no index lies in the batches of two
/// different workers.
pub proof fn law_batches_are_disjoint(files: nat, cores: nat, i: nat, j: nat, k: int)
    requires
        i < cores,
        j < cores,
        in_batch(files, cores, i, k),
        in_batch(files, cores, j, k),
    ensures
        i == j,
{
    if i < j {
        lemma_batches_ascend(files, cores, i, j);
    } else if j < i {
        lemma_batches_ascend(files, cores, j, i);
    }
}

/// What each worker's batch comes to, worker by worker, for a list that holds
/// the result of each file.
pub open spec fn batch_sums(results: Seq<FileTotal>, cores: nat) -> Seq<Tally> {
    Seq::new(
        cores,
        |i: int|
            sum_files(
                results.subrange(
                    batch_from(results.len(), cores, i as nat) as int,
                    batch_to(results.len(), cores, i as nat) as int,
                ),
            ),
    )
}

proof fn lemma_batch_sums_add_up(results: Seq<FileTotal>, cores: nat, k: nat)
    requires
        1 <= k <= cores,
    ensures
        sum_totals(batch_sums(results, cores).take(k as int)) == sum_files(
            results.subrange(0, batch_to(results.len(), cores, (k - 1) as nat) as int),
        ),
    decreases k,
{
    let files = results.len();
    let sums = batch_sums(results, cores);
    let last = (k - 1) as nat;
    let from = batch_from(files, cores, last) as int;
    let to = batch_to(files, cores, last) as int;
    lemma_batch_bounds(files, cores, last);
    assert(sums.take(k as int).drop_last() =~= sums.take(last as int));
    assert(sums.take(k as int).last() == sum_files(results.subrange(from, to)));
    if last == 0 {
        assert(results.subrange(0, 0) =~= Seq::empty());
    } else {
        lemma_batch_sums_add_up(results, cores, last);
        lemma_batch_bounds(files, cores, (last - 1) as nat);
    }
    assert(sum_totals(sums.take(last as int)) == sum_files(results.subrange(0, from)));
    law_sum_files_concat(results.subrange(0, from), results.subrange(from, to));
    assert(results.subrange(0, from) + results.subrange(from, to) =~= results.subrange(0, to));
}

/// Nothing is lost and nothing is counted twice by working in batches: the
/// sum of what the batches come to is what the whole list comes to.
pub proof fn law_batch_sums_add_up(results: Seq<FileTotal>, cores: nat)
    requires
        cores >= 1,
    ensures
        sum_totals(batch_sums(results, cores)) == sum_files(results),
{
    let sums = batch_sums(results, cores);
    lemma_batch_sums_add_up(results, cores, cores);
    lemma_batch_bounds(results.len(), cores, (cores - 1) as nat);
    assert(sums.take(cores as int) =~= sums);
    assert(results.subrange(0, results.len() as int) =~= results);
}

} // verus!
