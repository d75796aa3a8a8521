use heavy_folders::cancel::CancellationToken;
use heavy_folders::error::ScanError;
use heavy_folders::report::FolderInfo;
use heavy_folders::scanner::{
    DirectoryStep, HeavyFolderScanner, PendingMeasurement, DIR_POLL_INTERVAL, MAX_DIRS_LIMIT,
    MAX_SCAN_DEPTH,
};
use heavy_folders::sizing::FolderSize;

fn begin() -> HeavyFolderScanner {
    HeavyFolderScanner::begin("/home/user/projects", &CancellationToken::new())
}

fn descend(scanner: HeavyFolderScanner, name: &str) -> HeavyFolderScanner {
    match scanner.step_directory(name, false) {
        DirectoryStep::Descend(next) => next,
        other => panic!("expected to descend into {}, got {:?}", name, other),
    }
}

fn meet(scanner: HeavyFolderScanner, name: &str) -> PendingMeasurement {
    match scanner.step_directory(name, false) {
        DirectoryStep::Measure(pending) => pending,
        other => panic!("expected to measure {}, got {:?}", name, other),
    }
}

fn found(
    scanner: HeavyFolderScanner,
    parent: &str,
    name: &str,
    size: u64,
    file_count: u64,
) -> HeavyFolderScanner {
    let pending = meet(scanner, name);
    let measured = Some(FolderSize { size, file_count });
    assert!(pending.can_record(measured));
    let path = format!("/home/user/projects/{}/{}", parent, name);
    pending.record(&path, Some(parent), measured).unwrap()
}

fn after(directories: u64) -> HeavyFolderScanner {
    let mut scanner = begin();
    let mut i: u64 = 0;
    while i < directories {
        scanner = descend(scanner, "src");
        i += 1;
    }
    scanner
}

#[test]
fn limits_of_the_scan() {
    assert_eq!(MAX_SCAN_DEPTH, 15);
    assert_eq!(MAX_DIRS_LIMIT, 50_000);
    assert_eq!(DIR_POLL_INTERVAL, 100);
}

#[test]
fn fresh_scanner_has_seen_nothing() {
    let scanner = begin();
    assert_eq!(scanner.root(), "/home/user/projects");
    assert_eq!(scanner.directories_visited(), 0);
    assert!(scanner.folders().is_empty());
    assert!(scanner.poll_due());
}

#[test]
fn begin_clears_a_stale_signal() {
    let token = CancellationToken::new();
    token.signal();
    let scanner = HeavyFolderScanner::begin("/home/user/projects", &token);
    assert!(!token.is_signaled());
    match scanner.visit_directory("projects", &token) {
        DirectoryStep::Descend(next) => assert_eq!(next.directories_visited(), 1),
        other => panic!("expected to descend, got {:?}", other),
    }
}

#[test]
fn ordinary_directory_is_descended_into() {
    let scanner = descend(begin(), "projects");
    assert_eq!(scanner.directories_visited(), 1);
    assert!(scanner.folders().is_empty());
    let scanner = descend(scanner, "notes");
    assert_eq!(scanner.directories_visited(), 2);
}

#[test]
fn heavy_folder_is_measured_and_counted() {
    let pending = meet(descend(begin(), "app"), "node_modules");
    assert_eq!(pending.folder_name(), "node_modules");
    let scanner = pending
        .record(
            "/home/user/projects/app/node_modules",
            Some("app"),
            Some(FolderSize { size: 2_000_000, file_count: 40 }),
        )
        .unwrap();
    assert_eq!(scanner.directories_visited(), 2);
    assert_eq!(
        scanner.folders(),
        &vec![FolderInfo {
            path: "/home/user/projects/app/node_modules".to_string(),
            name: "app/node_modules".to_string(),
            size: 2_000_000,
            file_count: 40,
        }]
    );
}

#[test]
fn folder_without_named_parent_has_an_empty_one() {
    let pending = meet(begin(), "target");
    let scanner =
        pending.record("/target", None, Some(FolderSize { size: 5_000_000, file_count: 1 })).unwrap();
    assert_eq!(scanner.folders()[0].name, "/target");
    assert_eq!(scanner.folders()[0].path, "/target");
}

#[test]
fn same_name_under_two_parents_is_told_apart() {
    let scanner = found(begin(), "web", "node_modules", 3_000_000, 10);
    let scanner = found(scanner, "api", "node_modules", 4_000_000, 20);
    let result = scanner.finish();
    assert_eq!(result.folders[0].name, "api/node_modules");
    assert_eq!(result.folders[1].name, "web/node_modules");
}

#[test]
fn small_folders_are_dropped() {
    let scanner = found(begin(), "a", "build", 1_000_000, 3);
    assert!(scanner.folders().is_empty());
    assert_eq!(scanner.directories_visited(), 1);
    let scanner = found(scanner, "a", "dist", 0, 0);
    assert!(scanner.folders().is_empty());
    let scanner = found(scanner, "a", "obj", 999_999, 9);
    assert!(scanner.folders().is_empty());
    let scanner = found(scanner, "a", "bin", 1_000_001, 1);
    assert_eq!(scanner.folders().len(), 1);
    assert_eq!(scanner.folders()[0].size, 1_000_001);
    assert_eq!(scanner.directories_visited(), 4);
}

#[test]
fn every_reported_folder_is_above_the_threshold() {
    let mut scanner = begin();
    for size in [0, 1, 999_999, 1_000_000, 1_000_001, 2_000_000, 50, 7_000_000_000] {
        scanner = found(scanner, "p", ".git", size, 1);
    }
    let result = scanner.finish();
    assert_eq!(result.folders.len(), 3);
    for folder in result.folders.iter() {
        assert!(folder.size > 1_000_000);
    }
}

#[test]
fn result_is_sorted_by_size() {
    let mut scanner = begin();
    for size in [3_000_000, 9_000_000, 2_000_000, 9_000_000, 5_000_000] {
        scanner = found(scanner, "p", "target", size, 1);
    }
    let result = scanner.finish();
    let sizes: Vec<u64> = result.folders.iter().map(|f| f.size).collect();
    assert_eq!(sizes, vec![9_000_000, 9_000_000, 5_000_000, 3_000_000, 2_000_000]);
    for pair in result.folders.windows(2) {
        assert!(pair[0].size >= pair[1].size);
    }
}

#[test]
fn folders_of_one_size_keep_the_order_of_the_walk() {
    let mut scanner = begin();
    for (parent, size) in [("a", 4_000_000), ("b", 6_000_000), ("c", 4_000_000), ("d", 4_000_000)] {
        scanner = found(scanner, parent, "dist", size, 1);
    }
    let result = scanner.finish();
    let names: Vec<&str> = result.folders.iter().map(|f| f.name.as_str()).collect();
    assert_eq!(names, vec!["b/dist", "a/dist", "c/dist", "d/dist"]);
}

#[test]
fn total_is_the_sum_of_the_reported_sizes() {
    let mut scanner = begin();
    for size in [3_000_000, 500, 9_000_001, 1_000_000, 2_500_000] {
        scanner = found(scanner, "p", "vendor", size, 1);
    }
    let result = scanner.finish();
    assert_eq!(result.total_size, 3_000_000 + 9_000_001 + 2_500_000);
    assert_eq!(result.total_size, result.folders.iter().map(|f| f.size).sum::<u64>());
}

#[test]
fn empty_scan_gives_an_empty_result() {
    let result = descend(begin(), "projects").finish();
    assert!(result.folders.is_empty());
    assert_eq!(result.total_size, 0);
    assert_eq!(result.scan_path, "/home/user/projects");
}

#[test]
fn one_heavy_folder_beside_an_ordinary_one() {
    let scanner = descend(begin(), "projects");
    let pending = meet(scanner, "node_modules");
    let scanner = pending
        .record(
            "/home/user/projects/node_modules",
            Some("projects"),
            Some(FolderSize { size: 2_000_000, file_count: 2 }),
        )
        .unwrap();
    let scanner = descend(scanner, "notes");
    let result = scanner.finish();
    assert_eq!(result.folders.len(), 1);
    assert_eq!(result.folders[0].path, "/home/user/projects/node_modules");
    assert_eq!(result.folders[0].name, "projects/node_modules");
    assert_eq!(result.folders[0].size, 2_000_000);
    assert_eq!(result.folders[0].file_count, 2);
    assert_eq!(result.total_size, 2_000_000);
    assert_eq!(result.scan_path, "/home/user/projects");
}

#[test]
fn poll_is_due_every_hundred_directories() {
    assert!(after(0).poll_due());
    assert!(!after(1).poll_due());
    assert!(!after(99).poll_due());
    assert!(after(100).poll_due());
    assert!(!after(101).poll_due());
    assert!(after(200).poll_due());
}

#[test]
fn observed_signal_cancels_at_a_polling_point() {
    match begin().step_directory("projects", true) {
        DirectoryStep::Abort(e) => assert_eq!(e, ScanError::Cancelled),
        other => panic!("expected cancellation, got {:?}", other),
    }
    match after(100).step_directory("node_modules", true) {
        DirectoryStep::Abort(e) => assert_eq!(e, ScanError::Cancelled),
        other => panic!("expected cancellation, got {:?}", other),
    }
}

#[test]
fn signal_is_not_looked_at_between_polling_points() {
    match after(1).step_directory("projects", true) {
        DirectoryStep::Descend(next) => assert_eq!(next.directories_visited(), 2),
        other => panic!("expected to descend, got {:?}", other),
    }
    match after(99).step_directory(".venv", true) {
        DirectoryStep::Measure(pending) => assert_eq!(pending.folder_name(), ".venv"),
        other => panic!("expected to measure, got {:?}", other),
    }
}

#[test]
fn signalled_token_stops_the_scan_within_the_interval() {
    let token = CancellationToken::new();
    let mut scanner = HeavyFolderScanner::begin("/home/user/projects", &token);
    for _ in 0..130 {
        scanner = match scanner.visit_directory("src", &token) {
            DirectoryStep::Descend(next) => next,
            other => panic!("expected to descend, got {:?}", other),
        };
    }
    token.signal();
    let mut visited_after_signal = 0;
    let error = loop {
        match scanner.visit_directory("src", &token) {
            DirectoryStep::Descend(next) => {
                scanner = next;
                visited_after_signal += 1;
            },
            DirectoryStep::Abort(e) => break e,
            other => panic!("unexpected step {:?}", other),
        }
    };
    assert_eq!(error, ScanError::Cancelled);
    assert_eq!(visited_after_signal, 70);
    assert!(visited_after_signal <= 100);
}

#[test]
fn cancelled_measurement_cancels_the_scan() {
    let scanner = found(begin(), "p", "target", 3_000_000, 4);
    let pending = meet(scanner, "node_modules");
    assert!(pending.can_record(None));
    let outcome = pending.record("/home/user/projects/p/node_modules", Some("p"), None);
    assert_eq!(outcome.unwrap_err(), ScanError::Cancelled);
}

#[test]
fn limit_allows_fifty_thousand_directories() {
    let scanner = after(50_000);
    assert_eq!(scanner.directories_visited(), 50_000);
    let result = scanner.finish();
    assert!(result.folders.is_empty());
}

#[test]
fn one_directory_beyond_the_limit_fails_the_scan() {
    let scanner = found(after(49_999), "p", "node_modules", 2_000_000, 1);
    assert_eq!(scanner.directories_visited(), 50_000);
    match scanner.step_directory("src", false) {
        DirectoryStep::Abort(e) => assert_eq!(e, ScanError::DirectoryLimitExceeded),
        other => panic!("expected the limit, got {:?}", other),
    }
    match after(50_000).step_directory("node_modules", false) {
        DirectoryStep::Abort(e) => assert_eq!(e, ScanError::DirectoryLimitExceeded),
        other => panic!("expected the limit, got {:?}", other),
    }
}

#[test]
fn cancellation_comes_before_the_limit() {
    match after(50_000).step_directory("src", true) {
        DirectoryStep::Abort(e) => assert_eq!(e, ScanError::Cancelled),
        other => panic!("expected cancellation, got {:?}", other),
    }
}

#[test]
fn overflow_of_the_total_is_told_beforehand() {
    let scanner = found(begin(), "p", "target", u64::MAX - 5, 1);
    let pending = meet(scanner, "build");
    assert!(pending.can_record(Some(FolderSize { size: 5, file_count: 1 })));
    assert!(pending.can_record(Some(FolderSize { size: 1_000_000, file_count: 1 })));
    assert!(!pending.can_record(Some(FolderSize { size: 1_000_001, file_count: 1 })));
    assert!(pending.can_record(None));
}
