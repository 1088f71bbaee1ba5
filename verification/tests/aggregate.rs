use line_counter::aggregate::{Aggregator, AggregatorRequest, AggregatorStep};
use line_counter::total::Total;

fn run(cores: usize, messages: Vec<Option<Result<Total, String>>>) -> (Vec<String>, AggregatorRequest) {
    let mut aggregator = Aggregator::new(cores);
    let mut warnings = Vec::new();
    let mut request = aggregator.step(None).request;
    for message in messages {
        let step = aggregator.step(message);
        if let Some(warning) = step.warning {
            warnings.push(warning);
        }
        request = step.request;
    }
    (warnings, request)
}

#[test]
fn aggregator_waits_until_every_worker_reported() {
    let mut aggregator = Aggregator::new(3);
    assert_eq!(aggregator.step(None).request, AggregatorRequest::Poll);
    assert_eq!(
        aggregator.step(Some(Ok(Total { rows: 2, files: 1 }))).request,
        AggregatorRequest::Poll
    );
    assert_eq!(aggregator.step(None).request, AggregatorRequest::Poll);
    assert_eq!(
        aggregator.step(Some(Ok(Total { rows: 0, files: 0 }))).request,
        AggregatorRequest::Poll
    );
    assert_eq!(
        aggregator.step(Some(Ok(Total { rows: 5, files: 2 }))).request,
        AggregatorRequest::Finish(Total { rows: 7, files: 3 })
    );
}

#[test]
fn warning_is_passed_on_and_finishes_nobody() {
    let mut aggregator = Aggregator::new(1);
    let step = aggregator.step(Some(Err("Couldn't open a.txt: gone".to_string())));
    assert_eq!(
        step,
        AggregatorStep {
            warning: Some("Couldn't open a.txt: gone".to_string()),
            request: AggregatorRequest::Poll,
        }
    );
    assert_eq!(aggregator, Aggregator { cores: 1, finished: 0, total: Total { rows: 0, files: 0 } });
    let last = aggregator.step(Some(Ok(Total { rows: 1, files: 1 })));
    assert_eq!(
        last,
        AggregatorStep {
            warning: None,
            request: AggregatorRequest::Finish(Total { rows: 1, files: 1 }),
        }
    );
}

#[test]
fn empty_poll_changes_nothing() {
    let mut aggregator = Aggregator::new(2);
    aggregator.step(Some(Ok(Total { rows: 4, files: 1 })));
    let before = aggregator;
    assert_eq!(
        aggregator.step(None),
        AggregatorStep { warning: None, request: AggregatorRequest::Poll }
    );
    assert_eq!(aggregator, before);
}

#[test]
fn the_order_of_reports_does_not_matter() {
    let a = Total { rows: 2, files: 1 };
    let b = Total { rows: 30, files: 4 };
    let c = Total { rows: 500, files: 60 };
    let expected = AggregatorRequest::Finish(Total { rows: 532, files: 65 });
    let orders = [[a, b, c], [a, c, b], [b, a, c], [b, c, a], [c, a, b], [c, b, a]];
    for order in orders.iter() {
        let messages = order.iter().map(|t| Some(Ok(*t))).collect();
        let (warnings, request) = run(3, messages);
        assert!(warnings.is_empty());
        assert_eq!(request, expected);
    }
}

#[test]
fn warnings_between_reports_do_not_change_the_sum() {
    let messages = vec![
        Some(Err("first".to_string())),
        Some(Ok(Total { rows: 3, files: 1 })),
        None,
        Some(Err("second".to_string())),
        Some(Ok(Total { rows: 4, files: 2 })),
    ];
    let (warnings, request) = run(2, messages);
    assert_eq!(warnings, vec!["first".to_string(), "second".to_string()]);
    assert_eq!(request, AggregatorRequest::Finish(Total { rows: 7, files: 3 }));
}

#[test]
fn what_arrives_after_the_end_is_dropped() {
    let mut aggregator = Aggregator::new(1);
    aggregator.step(Some(Ok(Total { rows: 3, files: 1 })));
    let late = aggregator.step(Some(Ok(Total { rows: 100, files: 100 })));
    assert_eq!(
        late,
        AggregatorStep {
            warning: None,
            request: AggregatorRequest::Finish(Total { rows: 3, files: 1 }),
        }
    );
    let later = aggregator.step(Some(Err("late".to_string())));
    assert_eq!(later.warning, None);
    assert_eq!(later.request, AggregatorRequest::Finish(Total { rows: 3, files: 1 }));
}

#[test]
fn no_workers_means_nothing_to_wait_for() {
    let mut aggregator = Aggregator::new(0);
    assert_eq!(
        aggregator.step(None).request,
        AggregatorRequest::Finish(Total { rows: 0, files: 0 })
    );
}

#[test]
fn new_aggregator_has_seen_nobody() {
    assert_eq!(
        Aggregator::new(8),
        Aggregator { cores: 8, finished: 0, total: Total { rows: 0, files: 0 } }
    );
}
