use line_counter::aggregate::{Aggregator, AggregatorRequest};
use line_counter::file::count_dir_file;
use line_counter::input::parse_extensions;
use line_counter::lines::ReadOutcome;
use line_counter::partition::partition;
use line_counter::total::Total;
use line_counter::worker::{count_dirs, BatchWorker, WorkerRequest};

fn text(content: &str) -> ReadOutcome {
    ReadOutcome::Content(content.to_string())
}

fn work(
    files: &[(&str, ReadOutcome)],
    ext_vec: &Vec<String>,
    from: usize,
    to: usize,
) -> Vec<Result<Total, String>> {
    let paths: Vec<String> = files.iter().map(|(p, _)| p.to_string()).collect();
    let mut sent = Vec::new();
    let mut worker = BatchWorker::new(from, to);
    let mut step = count_dirs(&mut worker, &paths, ext_vec, None);
    loop {
        if let Some(warning) = step.warning {
            sent.push(Err(warning));
        }
        match step.request {
            WorkerRequest::Report(total) => {
                sent.push(Ok(total));
                return sent;
            }
            WorkerRequest::Read(index) => {
                let counted = count_dir_file(&paths[index], ext_vec, &files[index].1);
                step = count_dirs(&mut worker, &paths, ext_vec, Some(counted));
            }
        }
    }
}

fn run(
    files: &[(&str, ReadOutcome)],
    extensions: &str,
    cores: usize,
    backwards: bool,
) -> (Vec<String>, Total) {
    let ext_vec = parse_extensions(extensions);
    let mut channel = Vec::new();
    let mut batches = partition(files.len(), cores);
    if backwards {
        batches.reverse();
    }
    for b in batches {
        channel.extend(work(files, &ext_vec, b.from, b.to));
    }
    let mut aggregator = Aggregator::new(cores);
    let mut warnings = Vec::new();
    let mut request = aggregator.step(None).request;
    for message in channel {
        assert_eq!(request, AggregatorRequest::Poll);
        let step = aggregator.step(Some(message));
        if let Some(warning) = step.warning {
            warnings.push(warning);
        }
        request = step.request;
    }
    match request {
        AggregatorRequest::Finish(total) => (warnings, total),
        AggregatorRequest::Poll => panic!("the run did not finish"),
    }
}

#[test]
fn three_text_files_among_four_in_parallel() {
    let files = [
        ("d/one.txt", text("a\nb\n")),
        ("d/two.txt", text("")),
        ("d/three.txt", text("1\n2\n3\n4\n5\n")),
        ("d/notes.md", text("x\n")),
    ];
    for cores in 2..7 {
        let (warnings, total) = run(&files, "txt\n", cores, false);
        assert!(warnings.is_empty());
        assert_eq!(total, Total { rows: 7, files: 3 });
    }
}

#[test]
fn one_unreadable_file_among_four_countable_ones() {
    let files = [
        ("d/1.txt", text("a\n")),
        ("d/2.txt", text("a\nb\n")),
        ("d/3.txt", ReadOutcome::OpenFailed("Permission denied (os error 13)".to_string())),
        ("d/4.txt", text("a\nb\nc\n")),
        ("d/5.txt", text("a\nb\nc\nd\n")),
    ];
    for cores in 2..7 {
        let (warnings, total) = run(&files, "txt", cores, false);
        assert_eq!(
            warnings,
            vec!["Couldn't open d/3.txt: Permission denied (os error 13)".to_string()]
        );
        assert_eq!(total.files, 4);
        assert_eq!(total.rows, 10);
    }
}

#[test]
fn more_workers_than_files() {
    let files = [("a.rs", text("fn a() {}\n")), ("b.rs", text("fn b() {}\n\n"))];
    let (warnings, total) = run(&files, "rs", 8, false);
    assert!(warnings.is_empty());
    assert_eq!(total, Total { rows: 3, files: 2 });
}

#[test]
fn no_files_at_all() {
    let (warnings, total) = run(&[], "rs", 4, false);
    assert!(warnings.is_empty());
    assert_eq!(total, Total { rows: 0, files: 0 });
}

#[test]
fn the_order_in_which_workers_finish_does_not_matter() {
    let files = [
        ("a.txt", text("\n")),
        ("b.md", text("\n\n")),
        ("c.txt", text("\n\n\n")),
        ("d.txt", text("\n\n\n\n")),
        ("e", text("\n")),
        ("f.txt", text("")),
        ("g.txt", text("\n\n")),
    ];
    for cores in 2..6 {
        assert_eq!(run(&files, "txt", cores, false).1, Total { rows: 10, files: 5 });
        assert_eq!(run(&files, "txt", cores, true).1, Total { rows: 10, files: 5 });
    }
}

#[test]
fn parallel_and_sequential_counts_agree() {
    let files = [
        ("a.txt", text("1\n")),
        ("b.rs", text("1\n2\n")),
        ("c.txt", text("1\n2\n3\n")),
        ("d.class", text("1\n2\n3\n4\n")),
        ("e.txt", text("1\n2\n3\n4\n5\n")),
    ];
    let one = run(&files, "txt,class", 1, false).1;
    for cores in 2..9 {
        assert_eq!(run(&files, "txt,class", cores, false).1, one);
    }
    assert_eq!(one, Total { rows: 13, files: 4 });
}
