//! The aggregator: sums what the workers report and knows when all are done.
//!
//! Only a worker's total counts it as finished. A warning that a worker sends
//! on the way is passed on and changes nothing.

use crate::total::{law_sum_totals_ignores_order, sum_totals, Tally, Total};
use vstd::prelude::*;

verus! {

/// The state of the aggregator: how many of the `cores` workers have reported
/// their total, and the sum of those totals.
#[derive(Clone, Copy, Debug, PartialEq, Eq)]
pub struct Aggregator {
    pub cores: usize,
    pub finished: usize,
    pub total: Total,
}

/// The mathematical value of the aggregator's state.
pub struct AggregatorModel {
    pub cores: nat,
    pub finished: nat,
    pub total: Tally,
}

impl View for Aggregator {
    type V = AggregatorModel;

    open spec fn view(&self) -> AggregatorModel {
        AggregatorModel {
            cores: self.cores as nat,
            finished: self.finished as nat,
            total: self.total@,
        }
    }
}

/// What the aggregator asks of its driver.
#[derive(Clone, Copy, Debug, PartialEq, Eq)]
pub enum AggregatorRequest {
    /// Wait a moment, then poll the channel again.
    Poll,
    /// All workers have reported: this is the final total.
    Finish(Total),
}

/// The mathematical value of a request.
pub enum AggregatorRequestModel {
    Poll,
    Finish(Tally),
}

impl View for AggregatorRequest {
    type V = AggregatorRequestModel;

    open spec fn view(&self) -> AggregatorRequestModel {
        match self {
            AggregatorRequest::Poll => AggregatorRequestModel::Poll,
            AggregatorRequest::Finish(total) => AggregatorRequestModel::Finish(total@),
        }
    }
}

/// One step of the aggregator: a warning to show, if a worker sent one, and
/// what to do next.
#[derive(Clone, Debug, PartialEq, Eq)]
pub struct AggregatorStep {
    pub warning: Option<String>,
    pub request: AggregatorRequest,
}

/// The mathematical value of a step.
pub struct AggregatorStepModel {
    pub warning: Option<Seq<char>>,
    pub request: AggregatorRequestModel,
}

impl View for AggregatorStep {
    type V = AggregatorStepModel;

    open spec fn view(&self) -> AggregatorStepModel {
        AggregatorStepModel {
            warning: match self.warning {
                Some(message) => Some(message@),
                None => None,
            },
            request: self.request@,
        }
    }
}

/// The mathematical value of what a poll of the channel brought: nothing, a
/// worker's total, or a worker's warning.
pub open spec fn message_model(message: Option<Result<Total, String>>) -> Option<
    Result<Tally, Seq<char>>,
> {
    match message {
        None => None,
        Some(Ok(total)) => Some(Ok(total@)),
        Some(Err(warning)) => Some(Err(warning@)),
    }
}

/// Whether all workers have reported.
pub open spec fn all_reported(a: AggregatorModel) -> bool {
    a.finished >= a.cores
}

/// One step of the aggregator. A total adds to the sum and counts its worker
/// as finished; a warning is passed on; once all workers have reported, what
/// still arrives is dropped.
pub open spec fn aggregator_step(a: AggregatorModel, message: Option<Result<Tally, Seq<char>>>) -> (
    AggregatorModel,
    AggregatorStepModel,
) {
    let (after, warning) = if all_reported(a) {
        (a, None)
    } else {
        match message {
            Some(Ok(total)) => (
                AggregatorModel { finished: a.finished + 1, total: a.total.plus(total), ..a },
                None,
            ),
            Some(Err(warning)) => (a, Some(warning)),
            None => (a, None),
        }
    };
    let request = if all_reported(after) {
        AggregatorRequestModel::Finish(after.total)
    } else {
        AggregatorRequestModel::Poll
    };
    (after, AggregatorStepModel { warning, request })
}

impl Aggregator {
    /// A state is well formed when no more workers have reported than there
    /// are.
    pub open spec fn wf(&self) -> bool {
        self.finished <= self.cores
    }

    /// An aggregator that waits for `cores` workers.
    pub fn new(cores: usize) -> (aggregator: Aggregator)
        ensures
            aggregator.wf(),
            aggregator@ == (AggregatorModel { cores: cores as nat, finished: 0, total: Tally::zero() }),
    {
        Aggregator { cores, finished: 0, total: Total { rows: 0, files: 0 } }
    }

    /// One step of the aggregator, on what a poll of the channel brought.
    pub fn step(&mut self, message: Option<Result<Total, String>>) -> (step: AggregatorStep)
        requires
            old(self).wf(),
            aggregator_step(old(self)@, message_model(message)).0.total.fits(),
        ensures
            final(self).wf(),
            (final(self)@, step@) == aggregator_step(old(self)@, message_model(message)),
    {
        let mut warning: Option<String> = None;
        if self.finished < self.cores {
            match message {
                Some(Ok(total)) => {
                    self.total = self.total.plus(total);
                    self.finished = self.finished + 1;
                },
                Some(Err(message)) => {
                    warning = Some(message);
                },
                None => {},
            }
        }
        let request = if self.finished >= self.cores {
            AggregatorRequest::Finish(self.total)
        } else {
            AggregatorRequest::Poll
        };
        AggregatorStep { warning, request }
    }
}

/// The totals among the messages, in order.
pub open spec fn reported(messages: Seq<Result<Tally, Seq<char>>>) -> Seq<Tally>
    decreases messages.len(),
{
    if messages.len() == 0 {
        Seq::empty()
    } else {
        match messages.last() {
            Ok(total) => reported(messages.drop_last()).push(total),
            Err(_) => reported(messages.drop_last()),
        }
    }
}

/// The warnings among the messages, in order.
pub open spec fn warned(messages: Seq<Result<Tally, Seq<char>>>) -> Seq<Seq<char>>
    decreases messages.len(),
{
    if messages.len() == 0 {
        Seq::empty()
    } else {
        match messages.last() {
            Ok(_) => warned(messages.drop_last()),
            Err(warning) => warned(messages.drop_last()).push(warning),
        }
    }
}

/// A run of the aggregator: where it stands, the warnings it passed on so far,
/// and what it asked for last.
pub struct AggregatorRun {
    pub state: AggregatorModel,
    pub warnings: Seq<Seq<char>>,
    pub request: AggregatorRequestModel,
}

/// The run of an aggregator for `cores` workers whose polls bring `messages`,
/// in that order: a first step on an empty poll, then a step for each message.
pub open spec fn aggregator_run(cores: nat, messages: Seq<Result<Tally, Seq<char>>>) -> AggregatorRun
    decreases messages.len(),
{
    if messages.len() == 0 {
        let start = AggregatorModel { cores, finished: 0, total: Tally::zero() };
        let (state, step) = aggregator_step(start, None);
        AggregatorRun { state, warnings: Seq::empty(), request: step.request }
    } else {
        let before = aggregator_run(cores, messages.drop_last());
        let (state, step) = aggregator_step(before.state, Some(messages.last()));
        AggregatorRun {
            state,
            warnings: match step.warning {
                Some(warning) => before.warnings.push(warning),
                None => before.warnings,
            },
            request: step.request,
        }
    }
}

/// Whether each of the messages arrives while the aggregator still waits:
/// before the last of them, fewer than `cores` totals have come.
pub open spec fn in_time(cores: nat, messages: Seq<Result<Tally, Seq<char>>>) -> bool {
    messages.len() > 0 ==> reported(messages.drop_last()).len() < cores
}

proof fn lemma_reported_grows(messages: Seq<Result<Tally, Seq<char>>>)
    requires
        messages.len() > 0,
    ensures
        reported(messages.drop_last()).len() <= reported(messages).len(),
{
}

/// The aggregator sums what was reported and counts who reported. After
/// messages that all arrive in time, the sum is that of the totals among
/// them, the number of finished workers is the number of those totals, each
/// warning among them was passed on, and the aggregator finishes exactly when
/// as many totals have come as there are workers.
pub proof fn law_aggregator_sums_reports(cores: nat, messages: Seq<Result<Tally, Seq<char>>>)
    requires
        in_time(cores, messages),
    ensures
        ({
            let run = aggregator_run(cores, messages);
            &&& run.state.cores == cores
            &&& run.state.finished == reported(messages).len()
            &&& run.state.total == sum_totals(reported(messages))
            &&& run.warnings == warned(messages)
            &&& run.request == if reported(messages).len() == cores {
                AggregatorRequestModel::Finish(sum_totals(reported(messages)))
            } else {
                AggregatorRequestModel::Poll
            }
            &&& reported(messages).len() <= cores
        }),
    decreases messages.len(),
{
    if messages.len() > 0 {
        let earlier = messages.drop_last();
        if earlier.len() > 0 {
            lemma_reported_grows(earlier);
        }
        law_aggregator_sums_reports(cores, earlier);
        if let Ok(total) = messages.last() {
            assert(reported(earlier).push(total).drop_last() =~= reported(earlier));
        }
    }
}

/// The order in which the workers report does not matter: two runs whose
/// messages arrive in time and hold the same totals, in whatever order, end
/// with the same sum and the same number of finished workers.
pub proof fn law_aggregator_ignores_order(
    cores: nat,
    first: Seq<Result<Tally, Seq<char>>>,
    second: Seq<Result<Tally, Seq<char>>>,
)
    requires
        in_time(cores, first),
        in_time(cores, second),
        reported(first).to_multiset() == reported(second).to_multiset(),
    ensures
        aggregator_run(cores, first).state == aggregator_run(cores, second).state,
        aggregator_run(cores, first).request == aggregator_run(cores, second).request,
{
    law_aggregator_sums_reports(cores, first);
    law_aggregator_sums_reports(cores, second);
    law_sum_totals_ignores_order(reported(first), reported(second));
    vstd::seq_lib::to_multiset_len(reported(first));
    vstd::seq_lib::to_multiset_len(reported(second));
}

} // verus!
