//! Counts and how they combine.

use vstd::prelude::*;
use vstd::seq_lib::*;

verus! {

/// The mathematical value of a count: unbounded rows and files.
pub struct Tally {
    pub rows: nat,
    pub files: nat,
}

impl Tally {
    /// The empty count, the identity of `plus`.
    pub open spec fn zero() -> Tally {
        Tally { rows: 0, files: 0 }
    }

    /// Component-wise sum.
    pub open spec fn plus(self, other: Tally) -> Tally {
        Tally { rows: self.rows + other.rows, files: self.files + other.files }
    }

    /// Whether both components fit a machine word.
    pub open spec fn fits(self) -> bool {
        self.rows <= usize::MAX && self.files <= usize::MAX
    }
}

/// The result of counting one file.
///
/// When `ignore` is set the file was skipped and `rows` carries no meaning.
#[derive(Clone, Copy, Debug, PartialEq, Eq, Structural)]
pub struct FileTotal {
    pub rows: usize,
    pub ignore: bool,
}

impl FileTotal {
    /// What the file adds to an aggregate: nothing when ignored, else its
    /// rows and one file.
    pub open spec fn tally(self) -> Tally {
        if self.ignore {
            Tally::zero()
        } else {
            Tally { rows: self.rows as nat, files: 1 }
        }
    }
}

/// An aggregate of rows and files.
#[derive(Clone, Copy, Debug, PartialEq, Eq, Structural)]
pub struct Total {
    pub rows: usize,
    pub files: usize,
}

impl View for Total {
    type V = Tally;

    open spec fn view(&self) -> Tally {
        Tally { rows: self.rows as nat, files: self.files as nat }
    }
}

impl Total {
    /// The empty aggregate.
    pub fn zero() -> (t: Total)
        ensures
            t@ == Tally::zero(),
    {
        Total { rows: 0, files: 0 }
    }

    /// The sum of two aggregates, or `None` when a component leaves `usize`.
    pub fn checked_plus(self, other: Total) -> (sum: Option<Total>)
        ensures
            sum is Some <==> self@.plus(other@).fits(),
            sum matches Some(t) ==> t@ == self@.plus(other@),
    {
        match (self.rows.checked_add(other.rows), self.files.checked_add(other.files)) {
            (Some(rows), Some(files)) => Some(Total { rows, files }),
            _ => None,
        }
    }

    /// The sum of two aggregates.
    pub fn plus(self, other: Total) -> (sum: Total)
        requires
            self@.plus(other@).fits(),
        ensures
            sum@ == self@.plus(other@),
    {
        Total { rows: self.rows + other.rows, files: self.files + other.files }
    }

    /// The aggregate with one file's result added.
    pub fn plus_file(self, file: FileTotal) -> (sum: Total)
        requires
            self@.plus(file.tally()).fits(),
        ensures
            sum@ == self@.plus(file.tally()),
    {
        if file.ignore {
            self
        } else {
            Total { rows: self.rows + file.rows, files: self.files + 1 }
        }
    }
}

/// The aggregate of a list of per-file results, taken in order.
pub open spec fn sum_files(files: Seq<FileTotal>) -> Tally
    decreases files.len(),
{
    if files.len() == 0 {
        Tally::zero()
    } else {
        sum_files(files.drop_last()).plus(files.last().tally())
    }
}

/// The aggregate of a list of aggregates, taken in order.
pub open spec fn sum_totals(totals: Seq<Tally>) -> Tally
    decreases totals.len(),
{
    if totals.len() == 0 {
        Tally::zero()
    } else {
        sum_totals(totals.drop_last()).plus(totals.last())
    }
}

/// The sum of the weights of a list's items, taken in order.
spec fn weighted_sum<T>(items: Seq<T>, weight: spec_fn(T) -> Tally) -> Tally
    decreases items.len(),
{
    if items.len() == 0 {
        Tally::zero()
    } else {
        weighted_sum(items.drop_last(), weight).plus(weight(items.last()))
    }
}

proof fn lemma_weighted_sum_remove<T>(items: Seq<T>, weight: spec_fn(T) -> Tally, i: int)
    requires
        0 <= i < items.len(),
    ensures
        weighted_sum(items, weight) == weighted_sum(items.remove(i), weight).plus(weight(items[i])),
    decreases items.len(),
{
    if i == items.len() - 1 {
        assert(items.remove(i) =~= items.drop_last());
    } else {
        lemma_weighted_sum_remove(items.drop_last(), weight, i);
        assert(items.drop_last().remove(i) =~= items.remove(i).drop_last());
        assert(items.remove(i).last() == items.last());
    }
}

proof fn lemma_weighted_sum_ignores_order<T>(a: Seq<T>, b: Seq<T>, weight: spec_fn(T) -> Tally)
    requires
        a.to_multiset() == b.to_multiset(),
    ensures
        weighted_sum(a, weight) == weighted_sum(b, weight),
    decreases a.len(),
{
    to_multiset_len(a);
    to_multiset_len(b);
    if a.len() > 0 {
        let x = a.last();
        let k = a.len() - 1;
        assert(a[k] == x);
        assert(a.contains(x));
        to_multiset_contains(a, x);
        to_multiset_contains(b, x);
        let j = choose|j: int| 0 <= j < b.len() && b[j] == x;
        to_multiset_remove(a, k);
        to_multiset_remove(b, j);
        assert(a.remove(k) =~= a.drop_last());
        lemma_weighted_sum_ignores_order(a.drop_last(), b.remove(j), weight);
        lemma_weighted_sum_remove(b, weight, j);
    }
}

proof fn lemma_sum_files_is_weighted(files: Seq<FileTotal>)
    ensures
        sum_files(files) == weighted_sum(files, |f: FileTotal| f.tally()),
    decreases files.len(),
{
    if files.len() > 0 {
        lemma_sum_files_is_weighted(files.drop_last());
    }
}

proof fn lemma_sum_totals_is_weighted(totals: Seq<Tally>)
    ensures
        sum_totals(totals) == weighted_sum(totals, |t: Tally| t),
    decreases totals.len(),
{
    if totals.len() > 0 {
        lemma_sum_totals_is_weighted(totals.drop_last());
    }
}

/// Adding the empty count changes nothing.
pub proof fn law_zero_is_identity(a: Tally)
    ensures
        a.plus(Tally::zero()) == a,
        Tally::zero().plus(a) == a,
{
}

/// The order of two summands does not matter.
pub proof fn law_plus_commutes(a: Tally, b: Tally)
    ensures
        a.plus(b) == b.plus(a),
{
}

/// The grouping of three summands does not matter.
pub proof fn law_plus_associates(a: Tally, b: Tally, c: Tally)
    ensures
        a.plus(b).plus(c) == a.plus(b.plus(c)),
{
}

/// Two lists that hold the same per-file results, in whatever order, have the
/// same aggregate.
pub proof fn law_sum_files_ignores_order(a: Seq<FileTotal>, b: Seq<FileTotal>)
    requires
        a.to_multiset() == b.to_multiset(),
    ensures
        sum_files(a) == sum_files(b),
{
    lemma_sum_files_is_weighted(a);
    lemma_sum_files_is_weighted(b);
    lemma_weighted_sum_ignores_order(a, b, |f: FileTotal| f.tally());
}

/// Two lists that hold the same aggregates, in whatever order, have the same
/// sum.
pub proof fn law_sum_totals_ignores_order(a: Seq<Tally>, b: Seq<Tally>)
    requires
        a.to_multiset() == b.to_multiset(),
    ensures
        sum_totals(a) == sum_totals(b),
{
    lemma_sum_totals_is_weighted(a);
    lemma_sum_totals_is_weighted(b);
    lemma_weighted_sum_ignores_order(a, b, |t: Tally| t);
}

/// The aggregate of a concatenation is the sum of the parts' aggregates.
pub proof fn law_sum_files_concat(a: Seq<FileTotal>, b: Seq<FileTotal>)
    ensures
        sum_files(a + b) == sum_files(a).plus(sum_files(b)),
    decreases b.len(),
{
    if b.len() == 0 {
        assert(a + b =~= a);
    } else {
        law_sum_files_concat(a, b.drop_last());
        assert((a + b).drop_last() =~= a + b.drop_last());
        assert((a + b).last() == b.last());
    }
}

/// The sum of a concatenation is the sum of the parts' sums.
pub proof fn law_sum_totals_concat(a: Seq<Tally>, b: Seq<Tally>)
    ensures
        sum_totals(a + b) == sum_totals(a).plus(sum_totals(b)),
    decreases b.len(),
{
    if b.len() == 0 {
        assert(a + b =~= a);
    } else {
        law_sum_totals_concat(a, b.drop_last());
        assert((a + b).drop_last() =~= a + b.drop_last());
        assert((a + b).last() == b.last());
    }
}

} // verus!
