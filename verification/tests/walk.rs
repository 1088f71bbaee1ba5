use line_counter::aggregate::{Aggregator, AggregatorRequest};
use line_counter::file::count_dir_file;
use line_counter::lines::ReadOutcome;
use line_counter::partition::partition;
use line_counter::worker::{count_dirs, BatchWorker, WorkerRequest};
use line_counter::total::{FileTotal, Total};
use line_counter::walk::{
    count_all_files, count_dir, extract_path_vec, Phase, WalkAnswer, WalkMode, WalkRequest,
    WalkSummary, Walker,
};

enum Entry {
    File(ReadOutcome),
    Dir(Vec<&'static str>),
    Locked(&'static str),
}

fn text(content: &str) -> Entry {
    Entry::File(ReadOutcome::Content(content.to_string()))
}

fn strings(items: &[&str]) -> Vec<String> {
    items.iter().map(|e| e.to_string()).collect()
}

fn find<'a>(tree: &'a [(&'static str, Entry)], path: &str) -> Option<&'a Entry> {
    tree.iter().find(|(p, _)| *p == path).map(|(_, e)| e)
}

fn list(tree: &[(&'static str, Entry)], path: &str) -> WalkAnswer {
    match find(tree, path) {
        Some(Entry::Dir(entries)) => WalkAnswer::Directory(strings(entries)),
        Some(Entry::Locked(why)) => WalkAnswer::Unlistable(why.to_string()),
        Some(Entry::File(_)) => WalkAnswer::Unlistable("Not a directory (os error 20)".to_string()),
        None => WalkAnswer::Unlistable("No such file or directory (os error 2)".to_string()),
    }
}

fn drive(
    tree: &[(&'static str, Entry)],
    mut walker: Walker,
) -> (Vec<WalkRequest>, Option<Result<WalkSummary, String>>) {
    let exts = walker.ext_vec.clone();
    let mut log = Vec::new();
    let mut request = walker.request();
    loop {
        log.push(request.clone());
        let answer = match &request {
            WalkRequest::Finish => break,
            WalkRequest::Open(path) => list(tree, path),
            WalkRequest::Visit(path) => match find(tree, path) {
                Some(Entry::File(_)) | None => WalkAnswer::File,
                _ => list(tree, path),
            },
            WalkRequest::Read(path) => {
                let outcome = match find(tree, path) {
                    Some(Entry::File(outcome)) => outcome.clone(),
                    _ => ReadOutcome::OpenFailed("No such file or directory (os error 2)".to_string()),
                };
                WalkAnswer::Counted(count_dir_file(path, &exts, &outcome))
            }
        };
        request = walker.step(answer);
    }
    (log, walker.finish())
}

fn sample() -> Vec<(&'static str, Entry)> {
    vec![
        ("root", Entry::Dir(vec!["root/a.txt", "root/sub", "root/b.md", "root/z.txt"])),
        ("root/a.txt", text("1\n2\n")),
        ("root/sub", Entry::Dir(vec!["root/sub/c.txt", "root/sub/deep", "root/sub/d.rs"])),
        ("root/sub/c.txt", text("")),
        ("root/sub/deep", Entry::Dir(vec!["root/sub/deep/e.txt"])),
        ("root/sub/deep/e.txt", text("1\n2\n3\n4\n5\n")),
        ("root/sub/d.rs", text("fn main() {}\n")),
        ("root/b.md", text("# title\n\ntext\n")),
        ("root/z.txt", text("last\n")),
    ]
}

#[test]
fn walk_starts_by_opening_the_root() {
    let walker = count_all_files("root");
    assert_eq!(walker.mode, WalkMode::CountFiles);
    assert_eq!(walker.phase, Phase::Opening);
    assert_eq!(walker.pending, strings(&["root"]));
    assert_eq!(walker.request(), WalkRequest::Open("root".to_string()));
    assert_eq!(extract_path_vec("root", 10).mode, WalkMode::Flatten);
    assert_eq!(count_dir("root", strings(&["txt"])).mode, WalkMode::CountRows);
    assert_eq!(count_dir("root", strings(&["txt"])).ext_vec, strings(&["txt"]));
}

#[test]
fn unfinished_walk_has_no_outcome() {
    assert_eq!(count_all_files("root").finish(), None);
    let mut walker = count_dir("root", strings(&["txt"]));
    walker.step(WalkAnswer::Directory(strings(&["root/a.txt"])));
    assert_eq!(walker.finish(), None);
}

#[test]
fn count_mode_counts_every_file() {
    let (_, outcome) = drive(&sample(), count_all_files("root"));
    assert_eq!(
        outcome,
        Some(Ok(WalkSummary { seen: 6, paths: vec![], total: Total { rows: 0, files: 0 } }))
    );
}

#[test]
fn flatten_mode_lists_every_file_depth_first() {
    let (_, outcome) = drive(&sample(), extract_path_vec("root", 6));
    assert_eq!(
        outcome,
        Some(Ok(WalkSummary {
            seen: 6,
            paths: strings(&[
                "root/a.txt",
                "root/sub/c.txt",
                "root/sub/deep/e.txt",
                "root/sub/d.rs",
                "root/b.md",
                "root/z.txt",
            ]),
            total: Total { rows: 0, files: 0 },
        }))
    );
}

#[test]
fn capacity_hint_is_no_limit() {
    let (_, small) = drive(&sample(), extract_path_vec("root", 0));
    let (_, large) = drive(&sample(), extract_path_vec("root", 1000));
    assert_eq!(small, large);
    assert_eq!(small.unwrap().unwrap().paths.len(), 6);
}

#[test]
fn direct_count_sums_the_accepted_files() {
    let (_, outcome) = drive(&sample(), count_dir("root", strings(&["txt"])));
    assert_eq!(
        outcome,
        Some(Ok(WalkSummary { seen: 6, paths: vec![], total: Total { rows: 8, files: 4 } }))
    );
    let (_, outcome) = drive(&sample(), count_dir("root", strings(&["rs", "md"])));
    assert_eq!(
        outcome,
        Some(Ok(WalkSummary { seen: 6, paths: vec![], total: Total { rows: 4, files: 2 } }))
    );
}

#[test]
fn walk_asks_in_depth_first_order_and_reads_only_accepted_files() {
    let (log, _) = drive(&sample(), count_dir("root", strings(&["txt"])));
    let v = |p: &str| WalkRequest::Visit(p.to_string());
    let r = |p: &str| WalkRequest::Read(p.to_string());
    assert_eq!(
        log,
        vec![
            WalkRequest::Open("root".to_string()),
            v("root/a.txt"),
            r("root/a.txt"),
            v("root/sub"),
            v("root/sub/c.txt"),
            r("root/sub/c.txt"),
            v("root/sub/deep"),
            v("root/sub/deep/e.txt"),
            r("root/sub/deep/e.txt"),
            v("root/sub/d.rs"),
            v("root/b.md"),
            v("root/z.txt"),
            r("root/z.txt"),
            WalkRequest::Finish,
        ]
    );
}

#[test]
fn three_text_files_and_one_other() {
    let tree = vec![
        ("dir", Entry::Dir(vec!["dir/one.txt", "dir/two.txt", "dir/notes.md", "dir/three.txt"])),
        ("dir/one.txt", text("a\nb\n")),
        ("dir/two.txt", text("")),
        ("dir/notes.md", text("x\ny\nz\n")),
        ("dir/three.txt", text("1\n2\n3\n4\n5\n")),
    ];
    let (_, outcome) = drive(&tree, count_dir("dir", strings(&["txt"])));
    assert_eq!(outcome.unwrap().unwrap().total, Total { rows: 7, files: 3 });
}

#[test]
fn empty_directory_gives_nothing_and_no_error() {
    let tree = vec![("empty", Entry::Dir(vec![]))];
    let (log, outcome) = drive(&tree, count_dir("empty", strings(&["txt"])));
    assert_eq!(log, vec![WalkRequest::Open("empty".to_string()), WalkRequest::Finish]);
    assert_eq!(
        outcome,
        Some(Ok(WalkSummary { seen: 0, paths: vec![], total: Total { rows: 0, files: 0 } }))
    );
    let (_, counted) = drive(&tree, count_all_files("empty"));
    assert_eq!(counted.unwrap().unwrap().seen, 0);
    let (_, listed) = drive(&tree, extract_path_vec("empty", 0));
    assert_eq!(listed.unwrap().unwrap().paths, Vec::<String>::new());
}

#[test]
fn nested_empty_directories_give_nothing() {
    let tree = vec![
        ("top", Entry::Dir(vec!["top/a", "top/b"])),
        ("top/a", Entry::Dir(vec!["top/a/c"])),
        ("top/a/c", Entry::Dir(vec![])),
        ("top/b", Entry::Dir(vec![])),
    ];
    let (_, outcome) = drive(&tree, count_dir("top", strings(&["txt"])));
    assert_eq!(
        outcome,
        Some(Ok(WalkSummary { seen: 0, paths: vec![], total: Total { rows: 0, files: 0 } }))
    );
}

fn with_locked_subdirectory() -> Vec<(&'static str, Entry)> {
    vec![
        ("root", Entry::Dir(vec!["root/a.txt", "root/locked", "root/b.txt"])),
        ("root/a.txt", text("1\n2\n")),
        ("root/locked", Entry::Locked("Permission denied (os error 13)")),
        ("root/b.txt", text("3\n")),
    ]
}

#[test]
fn unlistable_subdirectory_fails_the_direct_count() {
    let (log, outcome) = drive(&with_locked_subdirectory(), count_dir("root", strings(&["txt"])));
    assert_eq!(
        outcome,
        Some(Err("Couldn't open directory: Permission denied (os error 13)".to_string()))
    );
    assert_eq!(log.last(), Some(&WalkRequest::Finish));
    assert!(!log.contains(&WalkRequest::Visit("root/b.txt".to_string())));
}

#[test]
fn unlistable_subdirectory_fails_the_enumeration() {
    let expected = Some(Err("Couldn't open directory: Permission denied (os error 13)".to_string()));
    let (_, counted) = drive(&with_locked_subdirectory(), count_all_files("root"));
    assert_eq!(counted, expected);
    let (_, listed) = drive(&with_locked_subdirectory(), extract_path_vec("root", 3));
    assert_eq!(listed, expected);
}

#[test]
fn unlistable_root_fails_at_once() {
    let tree = vec![("gone", Entry::Locked("No such file or directory (os error 2)"))];
    let (log, outcome) = drive(&tree, count_all_files("gone"));
    assert_eq!(log, vec![WalkRequest::Open("gone".to_string()), WalkRequest::Finish]);
    assert_eq!(
        outcome,
        Some(Err("Couldn't open directory: No such file or directory (os error 2)".to_string()))
    );
}

#[test]
fn first_failure_wins() {
    let tree = vec![
        ("root", Entry::Dir(vec!["root/one", "root/two"])),
        ("root/one", Entry::Locked("first")),
        ("root/two", Entry::Locked("second")),
    ];
    let (_, outcome) = drive(&tree, count_all_files("root"));
    assert_eq!(outcome, Some(Err("Couldn't open directory: first".to_string())));
}

#[test]
fn unreadable_file_fails_the_direct_count() {
    let tree = vec![
        ("root", Entry::Dir(vec!["root/a.txt", "root/b.txt", "root/c.txt"])),
        ("root/a.txt", text("1\n")),
        ("root/b.txt", Entry::File(ReadOutcome::OpenFailed("Permission denied (os error 13)".to_string()))),
        ("root/c.txt", text("1\n")),
    ];
    let (log, outcome) = drive(&tree, count_dir("root", strings(&["txt"])));
    assert_eq!(
        outcome,
        Some(Err("Couldn't open root/b.txt: Permission denied (os error 13)".to_string()))
    );
    assert!(!log.contains(&WalkRequest::Visit("root/c.txt".to_string())));
}

#[test]
fn unreadable_file_does_not_trouble_the_enumeration() {
    let tree = vec![
        ("root", Entry::Dir(vec!["root/a.txt", "root/b.txt"])),
        ("root/a.txt", text("1\n")),
        ("root/b.txt", Entry::File(ReadOutcome::OpenFailed("denied".to_string()))),
    ];
    let (_, counted) = drive(&tree, count_all_files("root"));
    assert_eq!(counted.unwrap().unwrap().seen, 2);
    let (_, listed) = drive(&tree, extract_path_vec("root", 2));
    assert_eq!(listed.unwrap().unwrap().paths, strings(&["root/a.txt", "root/b.txt"]));
}

#[test]
fn unreadable_file_that_is_not_accepted_is_never_read() {
    let tree = vec![
        ("root", Entry::Dir(vec!["root/a.bin", "root/b.txt"])),
        ("root/a.bin", Entry::File(ReadOutcome::ReadFailed("not text".to_string()))),
        ("root/b.txt", text("1\n2\n")),
    ];
    let (log, outcome) = drive(&tree, count_dir("root", strings(&["txt"])));
    assert!(!log.contains(&WalkRequest::Read("root/a.bin".to_string())));
    assert_eq!(outcome.unwrap().unwrap().total, Total { rows: 2, files: 1 });
}

#[test]
fn walking_twice_gives_the_same_outcome() {
    let tree = sample();
    for exts in [strings(&["txt"]), strings(&["rs"]), strings(&[]), strings(&["md", "txt", "rs"])] {
        let first = drive(&tree, count_dir("root", exts.clone()));
        let second = drive(&tree, count_dir("root", exts));
        assert_eq!(first, second);
    }
    assert_eq!(drive(&tree, count_all_files("root")), drive(&tree, count_all_files("root")));
    assert_eq!(drive(&tree, extract_path_vec("root", 6)), drive(&tree, extract_path_vec("root", 6)));
}

#[test]
fn answer_that_does_not_fit_is_dropped() {
    let mut walker = count_dir("root", strings(&["txt"]));
    assert_eq!(walker.step(WalkAnswer::File), WalkRequest::Open("root".to_string()));
    assert_eq!(
        walker.step(WalkAnswer::Counted(Ok(FileTotal { rows: 3, ignore: false }))),
        WalkRequest::Open("root".to_string())
    );
    assert_eq!(
        walker.step(WalkAnswer::Directory(strings(&["root/a.txt"]))),
        WalkRequest::Visit("root/a.txt".to_string())
    );
    assert_eq!(
        walker.step(WalkAnswer::Counted(Err("early".to_string()))),
        WalkRequest::Visit("root/a.txt".to_string())
    );
    assert_eq!(walker.step(WalkAnswer::File), WalkRequest::Read("root/a.txt".to_string()));
    assert_eq!(walker.step(WalkAnswer::File), WalkRequest::Read("root/a.txt".to_string()));
    assert_eq!(
        walker.step(WalkAnswer::Directory(strings(&["x"]))),
        WalkRequest::Read("root/a.txt".to_string())
    );
    assert_eq!(
        walker.step(WalkAnswer::Counted(Ok(FileTotal { rows: 3, ignore: false }))),
        WalkRequest::Finish
    );
    assert_eq!(walker.step(WalkAnswer::File), WalkRequest::Finish);
    assert_eq!(walker.step(WalkAnswer::Unlistable("late".to_string())), WalkRequest::Finish);
    assert_eq!(
        walker.finish(),
        Some(Ok(WalkSummary { seen: 1, paths: vec![], total: Total { rows: 3, files: 1 } }))
    );
}

#[test]
fn entries_are_visited_in_the_order_of_the_listing() {
    let mut walker = extract_path_vec("r", 0);
    let mut request = walker.step(WalkAnswer::Directory(strings(&["r/3", "r/1", "r/2"])));
    let mut visited = Vec::new();
    while let WalkRequest::Visit(path) = request {
        visited.push(path);
        request = walker.step(WalkAnswer::File);
    }
    assert_eq!(visited, strings(&["r/3", "r/1", "r/2"]));
    assert_eq!(walker.finish().unwrap().unwrap().paths, strings(&["r/3", "r/1", "r/2"]));
}

fn parallel(tree: &[(&'static str, Entry)], root: &str, exts: &[&str], cores: usize) -> Total {
    let ext_vec = strings(exts);
    let counted = drive(tree, count_all_files(root)).1.unwrap().unwrap().seen;
    let paths = drive(tree, extract_path_vec(root, counted)).1.unwrap().unwrap().paths;
    let mut aggregator = Aggregator::new(cores);
    let mut request = aggregator.step(None).request;
    for batch in partition(counted, cores) {
        let mut worker = BatchWorker::new(batch.from, batch.to);
        let mut step = count_dirs(&mut worker, &paths, &ext_vec, None);
        loop {
            if let Some(warning) = step.warning {
                request = aggregator.step(Some(Err(warning))).request;
            }
            match step.request {
                WorkerRequest::Report(total) => {
                    request = aggregator.step(Some(Ok(total))).request;
                    break;
                }
                WorkerRequest::Read(index) => {
                    let outcome = match find(tree, &paths[index]) {
                        Some(Entry::File(outcome)) => outcome.clone(),
                        _ => ReadOutcome::OpenFailed("gone".to_string()),
                    };
                    let counted = count_dir_file(&paths[index], &ext_vec, &outcome);
                    step = count_dirs(&mut worker, &paths, &ext_vec, Some(counted));
                }
            }
        }
    }
    match request {
        AggregatorRequest::Finish(total) => total,
        AggregatorRequest::Poll => panic!("the run did not finish"),
    }
}

#[test]
fn parallel_run_over_the_listed_files_agrees_with_the_direct_count() {
    let tree = sample();
    for exts in [vec!["txt"], vec!["rs", "md"], vec![], vec!["txt", "md", "rs"]] {
        let direct = drive(&tree, count_dir("root", strings(&exts))).1.unwrap().unwrap().total;
        for cores in 1..9 {
            assert_eq!(parallel(&tree, "root", &exts, cores), direct);
        }
    }
}

#[test]
fn count_of_files_is_the_length_of_the_list() {
    let tree = sample();
    let counted = drive(&tree, count_all_files("root")).1.unwrap().unwrap().seen;
    let listed = drive(&tree, extract_path_vec("root", 0)).1.unwrap().unwrap().paths;
    assert_eq!(counted, listed.len());
}
