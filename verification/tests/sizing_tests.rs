use heavy_folders::cancel::CancellationToken;
use heavy_folders::sizing::{FolderSize, FolderSizeTally, SizeStep, FILE_POLL_INTERVAL};

fn counted(files: u64, len: u64) -> FolderSizeTally {
    let mut tally = FolderSizeTally::new();
    let mut i: u64 = 0;
    while i < files {
        tally = match tally.step_entry(Some(len), false) {
            SizeStep::Continue(next) => next,
            SizeStep::Cancelled => panic!("not cancelled"),
        };
        i += 1;
    }
    tally
}

#[test]
fn new_tally_is_empty() {
    let tally = FolderSizeTally::new();
    assert_eq!(tally.total_size, 0);
    assert_eq!(tally.file_count, 0);
    assert_eq!(tally.finish(), FolderSize { size: 0, file_count: 0 });
}

#[test]
fn files_are_summed_and_counted() {
    let tally = FolderSizeTally::new();
    let tally = match tally.step_entry(Some(1_500_000), false) {
        SizeStep::Continue(t) => t,
        SizeStep::Cancelled => panic!("not cancelled"),
    };
    let tally = match tally.step_entry(Some(500_000), false) {
        SizeStep::Continue(t) => t,
        SizeStep::Cancelled => panic!("not cancelled"),
    };
    let tally = match tally.step_entry(Some(0), false) {
        SizeStep::Continue(t) => t,
        SizeStep::Cancelled => panic!("not cancelled"),
    };
    assert_eq!(tally.finish(), FolderSize { size: 2_000_000, file_count: 3 });
}

#[test]
fn other_entries_are_skipped() {
    let tally = counted(2, 10);
    let step = tally.step_entry(None, false);
    assert_eq!(step, SizeStep::Continue(FolderSizeTally { total_size: 20, file_count: 2 }));
}

#[test]
fn poll_is_due_every_five_hundred_files() {
    assert_eq!(FILE_POLL_INTERVAL, 500);
    assert!(FolderSizeTally::new().poll_due());
    assert!(!counted(1, 1).poll_due());
    assert!(!counted(499, 1).poll_due());
    assert!(counted(500, 1).poll_due());
    assert!(!counted(501, 1).poll_due());
    assert!(counted(1_000, 1).poll_due());
}

#[test]
fn observed_signal_cancels_the_measurement_at_a_polling_point() {
    assert_eq!(FolderSizeTally::new().step_entry(Some(7), true), SizeStep::Cancelled);
    assert_eq!(FolderSizeTally::new().step_entry(None, true), SizeStep::Cancelled);
    assert_eq!(counted(500, 1).step_entry(Some(7), true), SizeStep::Cancelled);
}

#[test]
fn measurement_ignores_the_signal_between_polling_points() {
    let step = counted(1, 5).step_entry(Some(7), true);
    assert_eq!(step, SizeStep::Continue(FolderSizeTally { total_size: 12, file_count: 2 }));
    let step = counted(499, 1).step_entry(Some(1), true);
    assert_eq!(step, SizeStep::Continue(FolderSizeTally { total_size: 500, file_count: 500 }));
}

#[test]
fn signalled_token_stops_the_measurement_within_the_interval() {
    let token = CancellationToken::new();
    let mut tally = counted(3, 1);
    token.signal();
    let mut counted_after_signal: u64 = 0;
    loop {
        match tally.visit_entry(Some(1), &token) {
            SizeStep::Continue(next) => {
                tally = next;
                counted_after_signal += 1;
            },
            SizeStep::Cancelled => break,
        }
    }
    assert_eq!(counted_after_signal, 497);
    assert!(counted_after_signal <= 500);
}

#[test]
fn clear_token_lets_the_measurement_go_on() {
    let token = CancellationToken::new();
    let step = FolderSizeTally::new().visit_entry(Some(9), &token);
    assert_eq!(step, SizeStep::Continue(FolderSizeTally { total_size: 9, file_count: 1 }));
}

#[test]
fn signalled_token_cancels_the_first_entry() {
    let token = CancellationToken::new();
    token.signal();
    assert_eq!(FolderSizeTally::new().visit_entry(Some(9), &token), SizeStep::Cancelled);
}

#[test]
fn overflow_is_told_beforehand() {
    let tally = FolderSizeTally { total_size: u64::MAX - 10, file_count: 4 };
    assert!(tally.can_count(Some(10)));
    assert!(!tally.can_count(Some(11)));
    assert!(tally.can_count(None));
    let tally = FolderSizeTally { total_size: 0, file_count: u64::MAX };
    assert!(!tally.can_count(Some(0)));
    assert!(tally.can_count(None));
    let tally = FolderSizeTally { total_size: u64::MAX - 10, file_count: 4 };
    let step = tally.step_entry(Some(10), false);
    assert_eq!(step, SizeStep::Continue(FolderSizeTally { total_size: u64::MAX, file_count: 5 }));
}
