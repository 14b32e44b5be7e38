use dirscan::args::Args;
use dirscan::tree::{walk_tree, DirNode, DirTree, WalkReport};
use dirscan::walk::{
    check_ratio, classify_directory, displayed_entries, process_dir_entry, screen_entry,
    Classification, DirMetadata, ScanConfig, Verdict, WalkAction, WalkError, ALERT_COUNT,
    BLACKLIST_COUNT,
};

fn config(alert: u64, blacklist: u64, one_filesystem: bool, skip: &[&str]) -> ScanConfig {
    let args = Args {
        alert_threshold: alert,
        blacklist_threshold: blacklist,
        one_filesystem,
        skip_path: skip.iter().map(|s| s.to_string()).collect(),
        threads: 4,
        ..Default::default()
    };
    ScanConfig::from_args(&args)
}

fn dir(path: &str, dev: u64, size: u64, parent: usize) -> DirNode {
    DirNode {
        path: path.to_string(),
        is_dir: true,
        metadata: Some(DirMetadata { dev, size }),
        parent,
    }
}

fn file(path: &str, parent: usize) -> DirNode {
    DirNode { path: path.to_string(), is_dir: false, metadata: None, parent }
}

/// root(0) -> big(1) -> inner(2) -> deep(3); root -> small(4); big -> f(5)
fn sample_tree(big_size: u64) -> DirTree {
    DirTree {
        nodes: vec![
            dir("/r", 1, 4096, 0),
            dir("/r/big", 1, big_size, 0),
            dir("/r/big/inner", 1, 4096, 1),
            dir("/r/big/inner/deep", 1, 4096, 2),
            dir("/r/small", 1, 4096, 0),
            file("/r/big/f", 1),
        ],
    }
}

fn ok(r: Result<WalkReport, WalkError>) -> WalkReport {
    match r {
        Ok(rep) => rep,
        Err(e) => panic!("walk failed: {:?}", e),
    }
}

#[test]
fn alert_directory_still_descended() {
    let cfg = config(100, 1000, true, &[]);
    let v = classify_directory(Some(DirMetadata { dev: 7, size: 4096 }), 7, 32, &cfg);
    assert_eq!(
        v,
        Verdict {
            action: WalkAction::Continue,
            class: Some(Classification::Alert { size: 4096, estimated: 128 }),
            counted: true,
        }
    );
    let rep = ok(walk_tree(&sample_tree(4096), 1, 32, &cfg, false));
    assert_eq!(rep.verdicts[1].unwrap().class, Some(Classification::Alert { size: 4096, estimated: 128 }));
    assert!(rep.verdicts[2].is_some());
    assert!(rep.verdicts[3].is_some());
    assert_eq!(rep.visited, 5);
}

#[test]
fn blacklisted_directory_pruned_and_counted_once() {
    let cfg = config(100, 10000, true, &[]);
    let v = classify_directory(Some(DirMetadata { dev: 1, size: 1_048_576 }), 1, 32, &cfg);
    assert_eq!(v.class, Some(Classification::Blacklisted { size: 1_048_576, estimated: 32768 }));
    assert_eq!(v.action, WalkAction::SkipSubtree);
    assert!(v.counted);
    let rep = ok(walk_tree(&sample_tree(1_048_576), 1, 32, &cfg, false));
    assert_eq!(
        rep.verdicts[1].unwrap().class,
        Some(Classification::Blacklisted { size: 1_048_576, estimated: 32768 })
    );
    assert_eq!(rep.verdicts[2], None);
    assert_eq!(rep.verdicts[3], None);
    assert_eq!(rep.verdicts[5], None);
    // root, big and small
    assert_eq!(rep.visited, 3);
}

#[test]
fn excluded_directory_never_classified_otherwise() {
    let cfg = config(100, 1000, true, &["/r/big"]);
    let rep = ok(walk_tree(&sample_tree(1_048_576), 1, 32, &cfg, false));
    assert_eq!(rep.verdicts[1].unwrap().class, Some(Classification::SkippedExcluded));
    assert_eq!(rep.verdicts[1].unwrap().action, WalkAction::SkipSubtree);
    assert!(rep.verdicts[1].unwrap().counted);
    assert_eq!(rep.verdicts[2], None);
    assert_eq!(rep.verdicts[3], None);
    assert_eq!(rep.visited, 3);
}

#[test]
fn device_boundary_pruned_with_one_filesystem() {
    let mut tree = sample_tree(4096);
    tree.nodes[1].metadata = Some(DirMetadata { dev: 2, size: 4096 });
    let cfg = config(100, 1000, true, &[]);
    let rep = ok(walk_tree(&tree, 1, 32, &cfg, false));
    assert_eq!(rep.verdicts[1].unwrap().class, Some(Classification::SkippedBoundary));
    assert_eq!(rep.verdicts[2], None);
    assert_eq!(rep.visited, 3);

    let crossing = config(100, 1000, false, &[]);
    let rep = ok(walk_tree(&tree, 1, 32, &crossing, false));
    assert!(rep.verdicts[2].is_some());
    assert_eq!(rep.visited, 5);
}

#[test]
fn repeated_walk_gives_same_result() {
    let cfg = config(100, 10000, true, &["/r/small"]);
    let tree = sample_tree(1_048_576);
    let a = ok(walk_tree(&tree, 1, 32, &cfg, false));
    let b = ok(walk_tree(&tree, 1, 32, &cfg, false));
    assert_eq!(a.visited, b.visited);
    assert_eq!(a.verdicts, b.verdicts);
}

#[test]
fn raising_blacklist_threshold_visits_more() {
    let tree = sample_tree(1_048_576);
    let low = ok(walk_tree(&tree, 1, 32, &config(100, 10000, true, &[]), false));
    let high = ok(walk_tree(&tree, 1, 32, &config(100, 100000, true, &[]), false));
    assert!(high.visited >= low.visited);
    assert_eq!(low.visited, 3);
    assert_eq!(high.visited, 5);
    let blacklisted = |r: &WalkReport| {
        r.verdicts
            .iter()
            .filter(|v| matches!(v, Some(Verdict { class: Some(Classification::Blacklisted { .. }), .. })))
            .count()
    };
    assert_eq!(blacklisted(&low), 1);
    assert_eq!(blacklisted(&high), 0);
}

#[test]
fn raising_blacklist_threshold_can_expose_more_offenders() {
    // a directory over the lower threshold hides two larger ones below it
    let tree = DirTree {
        nodes: vec![
            dir("/r", 1, 320, 0),
            dir("/r/a", 1, 32 * 500, 0),
            dir("/r/a/c1", 1, 32 * 2000, 1),
            dir("/r/a/c2", 1, 32 * 2000, 1),
        ],
    };
    let blacklisted = |r: &WalkReport| {
        r.verdicts
            .iter()
            .filter(|v| matches!(v, Some(Verdict { class: Some(Classification::Blacklisted { .. }), .. })))
            .count()
    };
    let low = ok(walk_tree(&tree, 1, 32, &config(100, 100, true, &[]), false));
    let high = ok(walk_tree(&tree, 1, 32, &config(100, 1000, true, &[]), false));
    assert_eq!(blacklisted(&low), 1);
    assert_eq!(blacklisted(&high), 2);
    assert_eq!(low.visited, 2);
    assert_eq!(high.visited, 4);
}

#[test]
fn cancelled_walk_visits_nothing() {
    let cfg = config(100, 1000, true, &[]);
    assert_eq!(walk_tree(&sample_tree(4096), 1, 32, &cfg, true).err(), Some(WalkError::Cancelled));
    let v = process_dir_entry(1, 32, "/r", true, Some(DirMetadata { dev: 1, size: 4096 }), &cfg, true);
    assert_eq!(v, Verdict { action: WalkAction::StopAll, class: None, counted: false });
}

#[test]
fn zero_ratio_refused() {
    let cfg = config(100, 1000, true, &[]);
    assert_eq!(check_ratio(0), Err(WalkError::ZeroRatio));
    assert_eq!(check_ratio(21), Ok(()));
    assert_eq!(walk_tree(&sample_tree(4096), 1, 0, &cfg, false).err(), Some(WalkError::ZeroRatio));
}

#[test]
fn malformed_tree_refused() {
    let cfg = config(100, 1000, true, &[]);
    let mut tree = sample_tree(4096);
    tree.nodes[2].parent = 3;
    assert_eq!(walk_tree(&tree, 1, 32, &cfg, false).err(), Some(WalkError::MalformedTree));
    let empty = DirTree { nodes: vec![] };
    assert_eq!(walk_tree(&empty, 1, 32, &cfg, false).err(), Some(WalkError::MalformedTree));
    let file_root = DirTree { nodes: vec![file("/f", 0)] };
    assert_eq!(walk_tree(&file_root, 1, 32, &cfg, false).err(), Some(WalkError::MalformedTree));
}

#[test]
fn unreadable_directory_not_counted_but_descended() {
    let cfg = config(100, 1000, true, &[]);
    assert_eq!(
        classify_directory(None, 1, 32, &cfg),
        Verdict { action: WalkAction::Continue, class: Some(Classification::Normal), counted: false }
    );
    let mut tree = sample_tree(4096);
    tree.nodes[1].metadata = None;
    let rep = ok(walk_tree(&tree, 1, 32, &cfg, false));
    assert!(!rep.verdicts[1].unwrap().counted);
    assert!(rep.verdicts[2].is_some());
    assert_eq!(rep.visited, 4);
}

#[test]
fn files_are_not_counted() {
    let cfg = config(100, 1000, true, &[]);
    assert_eq!(
        screen_entry(&cfg, false, "/r/f", false),
        Some(Verdict { action: WalkAction::Continue, class: None, counted: false })
    );
    assert_eq!(screen_entry(&cfg, false, "/r/d", true), None);
    let rep = ok(walk_tree(&sample_tree(4096), 1, 32, &cfg, false));
    assert_eq!(rep.verdicts[5], Some(Verdict { action: WalkAction::Continue, class: None, counted: false }));
}

#[test]
fn thresholds_are_strict_bounds() {
    let cfg = config(100, 1000, false, &[]);
    // 3200 / 32 == 100: not above the alert threshold
    let at_alert = classify_directory(Some(DirMetadata { dev: 1, size: 3200 }), 1, 32, &cfg);
    assert_eq!(at_alert.class, Some(Classification::Normal));
    let over_alert = classify_directory(Some(DirMetadata { dev: 1, size: 3232 }), 1, 32, &cfg);
    assert_eq!(over_alert.class, Some(Classification::Alert { size: 3232, estimated: 101 }));
    let at_blacklist = classify_directory(Some(DirMetadata { dev: 1, size: 32000 }), 1, 32, &cfg);
    assert_eq!(at_blacklist.class, Some(Classification::Alert { size: 32000, estimated: 1000 }));
    // floor division: 32031 / 32 == 1000
    let floor = classify_directory(Some(DirMetadata { dev: 1, size: 32031 }), 1, 32, &cfg);
    assert_eq!(floor.class, Some(Classification::Alert { size: 32031, estimated: 1000 }));
    let over = classify_directory(Some(DirMetadata { dev: 1, size: 32032 }), 1, 32, &cfg);
    assert_eq!(over.class, Some(Classification::Blacklisted { size: 32032, estimated: 1001 }));
}

#[test]
fn inverted_thresholds_blacklist_first() {
    let cfg = config(1000, 100, false, &[]);
    let v = classify_directory(Some(DirMetadata { dev: 1, size: 32 * 500 }), 1, 32, &cfg);
    assert_eq!(v.class, Some(Classification::Blacklisted { size: 16000, estimated: 500 }));
}

#[test]
fn largest_size_estimate() {
    let cfg = config(ALERT_COUNT, BLACKLIST_COUNT, false, &[]);
    let v = classify_directory(Some(DirMetadata { dev: 1, size: u64::MAX }), 1, 1, &cfg);
    assert_eq!(v.class, Some(Classification::Blacklisted { size: u64::MAX, estimated: u64::MAX }));
}

#[test]
fn displayed_count_prefers_exact_when_accurate() {
    assert_eq!(displayed_entries(true, Some(12), 128), 12);
    assert_eq!(displayed_entries(true, None, 128), 128);
    assert_eq!(displayed_entries(false, Some(12), 128), 128);
}

#[test]
fn config_takes_options() {
    let cfg = config(5, 6, false, &["/proc", "/sys"]);
    assert_eq!(cfg.alert_threshold, 5);
    assert_eq!(cfg.blacklist_threshold, 6);
    assert!(!cfg.one_filesystem);
    assert_eq!(cfg.thread_count, 4);
    assert_eq!(
        screen_entry(&cfg, false, "/sys", true).map(|v| v.class),
        Some(Some(Classification::SkippedExcluded))
    );
    assert_eq!(screen_entry(&cfg, false, "/sys/kernel", true), None);
}
