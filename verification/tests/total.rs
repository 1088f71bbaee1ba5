use line_counter::total::{FileTotal, Total};

fn sum(files: &[FileTotal]) -> Total {
    let mut total = Total::zero();
    for f in files {
        total = total.plus_file(*f);
    }
    total
}

#[test]
fn zero_is_empty() {
    assert_eq!(Total::zero(), Total { rows: 0, files: 0 });
}

#[test]
fn plus_adds_componentwise() {
    let a = Total { rows: 7, files: 3 };
    let b = Total { rows: 5, files: 1 };
    assert_eq!(a.plus(b), Total { rows: 12, files: 4 });
}

#[test]
fn zero_is_the_identity() {
    let a = Total { rows: 7, files: 3 };
    assert_eq!(a.plus(Total::zero()), a);
    assert_eq!(Total::zero().plus(a), a);
}

#[test]
fn plus_commutes_and_associates() {
    let a = Total { rows: 1, files: 2 };
    let b = Total { rows: 30, files: 40 };
    let c = Total { rows: 500, files: 600 };
    assert_eq!(a.plus(b), b.plus(a));
    assert_eq!(a.plus(b).plus(c), a.plus(b.plus(c)));
}

#[test]
fn checked_plus_gives_the_sum_when_it_fits() {
    let a = Total { rows: usize::MAX - 1, files: 3 };
    assert_eq!(
        a.checked_plus(Total { rows: 1, files: 1 }),
        Some(Total { rows: usize::MAX, files: 4 })
    );
}

#[test]
fn checked_plus_refuses_an_overflow() {
    let a = Total { rows: usize::MAX, files: 3 };
    assert_eq!(a.checked_plus(Total { rows: 1, files: 0 }), None);
    let b = Total { rows: 0, files: usize::MAX };
    assert_eq!(b.checked_plus(Total { rows: 0, files: 1 }), None);
}

#[test]
fn plus_file_counts_a_file() {
    let a = Total { rows: 7, files: 3 };
    assert_eq!(
        a.plus_file(FileTotal { rows: 5, ignore: false }),
        Total { rows: 12, files: 4 }
    );
    assert_eq!(
        a.plus_file(FileTotal { rows: 0, ignore: false }),
        Total { rows: 7, files: 4 }
    );
}

#[test]
fn plus_file_passes_over_an_ignored_file() {
    let a = Total { rows: 7, files: 3 };
    assert_eq!(a.plus_file(FileTotal { rows: 99, ignore: true }), a);
}

#[test]
fn the_order_of_files_does_not_matter() {
    let files = [
        FileTotal { rows: 2, ignore: false },
        FileTotal { rows: 0, ignore: false },
        FileTotal { rows: 9, ignore: true },
        FileTotal { rows: 5, ignore: false },
    ];
    let expected = Total { rows: 7, files: 3 };
    let orders: [[usize; 4]; 6] = [
        [0, 1, 2, 3],
        [3, 2, 1, 0],
        [1, 0, 3, 2],
        [2, 3, 0, 1],
        [0, 2, 1, 3],
        [3, 0, 2, 1],
    ];
    for order in orders.iter() {
        let shuffled: Vec<FileTotal> = order.iter().map(|&i| files[i]).collect();
        assert_eq!(sum(&shuffled), expected);
    }
}
