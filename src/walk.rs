//! What the walker decides for each entry it discovers: whether to count it,
//! how to classify it, and whether to descend into it.
use crate::args::{path_views, Args};
use crate::pathset::{contains_path, insert_path, new_path_set, path_set_contents};
use ahash::AHashSet;
use vstd::prelude::*;

verus! {

/// Default estimated entry count above which a directory is reported.
pub const ALERT_COUNT: u64 = 10_000;

/// Default estimated entry count above which a directory is reported as
/// severe and left out of the deeper scan.
pub const BLACKLIST_COUNT: u64 = 100_000;

/// Default number of seconds between status updates.
pub const STATUS_SECONDS: u64 = 20;

/// What the walker needs of a directory's own metadata.
#[derive(Debug, Clone, Copy, PartialEq, Eq, Structural)]
pub struct DirMetadata {
    /// Identifier of the device that holds the directory.
    pub dev: u64,
    /// Raw size of the directory itself, in bytes.
    pub size: u64,
}

/// How a visited directory was judged.
#[derive(Debug, Clone, Copy, PartialEq, Eq, Structural)]
pub enum Classification {
    /// Nothing to report; the walk descends.
    Normal,
    /// Over the alert threshold: reported, and the walk still descends.
    Alert { size: u64, estimated: u64 },
    /// Over the blacklist threshold: reported, and its subtree is not walked.
    Blacklisted { size: u64, estimated: u64 },
    /// On another device than the root while one filesystem is asked for.
    SkippedBoundary,
    /// Listed among the paths to skip.
    SkippedExcluded,
}

/// What the traversal does after an entry.
#[derive(Debug, Clone, Copy, PartialEq, Eq, Structural)]
pub enum WalkAction {
    /// Go on, descending into the entry if it is a directory.
    Continue,
    /// Go on with the siblings, but not into this entry's children.
    SkipSubtree,
    /// Stop the whole walk.
    StopAll,
}

/// The decision taken for one discovered entry.
#[derive(Debug, Clone, Copy, PartialEq, Eq, Structural)]
pub struct Verdict {
    pub action: WalkAction,
    /// `None` for entries that are not classified (not directories, or
    /// seen after cancellation).
    pub class: Option<Classification>,
    /// Whether the entry adds one to the visited-directory count.
    pub counted: bool,
}

/// Configuration of one scan, shared read-only by every worker.
///
/// The blacklist threshold is meant to be at least the alert threshold. That
/// is not enforced: below it, every directory over the blacklist threshold is
/// blacklisted, and none is ever reported as an alert.
pub struct ScanConfig {
    /// Estimated entry count above which a directory is reported.
    pub alert_threshold: u64,
    /// Estimated entry count above which a directory is reported and pruned.
    pub blacklist_threshold: u64,
    /// Whether crossing onto another device prunes.
    pub one_filesystem: bool,
    /// Whether reported directories are listed for an exact count.
    pub accurate: bool,
    /// Directories that are never descended into.
    pub skip_paths: AHashSet<String>,
    /// Number of worker threads.
    pub thread_count: usize,
    /// Seconds between status updates; 0 disables them.
    pub status_interval: u64,
}

/// The part of a `ScanConfig` that decides what the walker does.
pub struct ScanConfigView {
    pub alert_threshold: u64,
    pub blacklist_threshold: u64,
    pub one_filesystem: bool,
    pub skip_paths: Set<Seq<char>>,
}

impl View for ScanConfig {
    type V = ScanConfigView;

    open spec fn view(&self) -> ScanConfigView {
        ScanConfigView {
            alert_threshold: self.alert_threshold,
            blacklist_threshold: self.blacklist_threshold,
            one_filesystem: self.one_filesystem,
            skip_paths: path_set_contents(self.skip_paths),
        }
    }
}

impl ScanConfig {
    /// The configuration that a scan with these options uses.
    pub fn from_args(args: &Args) -> (r: ScanConfig)
        ensures
            r.alert_threshold == args.alert_threshold,
            r.blacklist_threshold == args.blacklist_threshold,
            r.one_filesystem == args.one_filesystem,
            r.accurate == args.accurate,
            r.thread_count == args.threads,
            r.status_interval == args.updates,
            r@.skip_paths == path_views(args.skip_path@).to_set(),
    {
        let mut skip_paths = new_path_set();
        let mut i: usize = 0;
        while i < args.skip_path.len()
            invariant
                0 <= i <= args.skip_path@.len(),
                path_set_contents(skip_paths) == path_views(args.skip_path@).subrange(
                    0,
                    i as int,
                ).to_set(),
            decreases args.skip_path@.len() - i,
        {
            let ghost before = path_views(args.skip_path@).subrange(0, i as int);
            let ghost after = path_views(args.skip_path@).subrange(0, i + 1);
            assert(after == before.push(args.skip_path@[i as int]@));
            assert(after.to_set() =~= before.to_set().insert(args.skip_path@[i as int]@)) by {
                broadcast use vstd::seq_lib::lemma_seq_contains_after_push;

            }
            insert_path(&mut skip_paths, args.skip_path[i].clone());
            i = i + 1;
        }
        assert(path_views(args.skip_path@).subrange(0, args.skip_path@.len() as int) == path_views(
            args.skip_path@,
        ));
        ScanConfig {
            alert_threshold: args.alert_threshold,
            blacklist_threshold: args.blacklist_threshold,
            one_filesystem: args.one_filesystem,
            accurate: args.accurate,
            skip_paths,
            thread_count: args.threads,
            status_interval: args.updates,
        }
    }
}

/// Why a walk produced no report.
#[derive(Debug, Clone, Copy, PartialEq, Eq, Structural)]
pub enum WalkError {
    /// A ratio of zero was given.
    ZeroRatio,
    /// The root is not a directory, or an entry comes before its parent.
    MalformedTree,
    /// Cancellation was requested.
    Cancelled,
}

/// Refuses a ratio of zero, before any work: estimates divide by the ratio.
pub fn check_ratio(ratio: u64) -> (r: Result<(), WalkError>)
    ensures
        r is Err <==> ratio == 0,
        r is Err ==> r == Err::<(), WalkError>(WalkError::ZeroRatio),
{
    if ratio == 0 {
        Err(WalkError::ZeroRatio)
    } else {
        Ok(())
    }
}

/// Entries estimated for a directory of `size` bytes: floor division.
pub open spec fn estimated_entries(size: u64, ratio: u64) -> u64
    recommends
        ratio > 0,
{
    (size / ratio) as u64
}

/// The class of a directory that is neither excluded nor unreadable.
pub open spec fn directory_class(
    meta: DirMetadata,
    root_dev: u64,
    ratio: u64,
    cfg: ScanConfigView,
) -> Classification {
    if cfg.one_filesystem && meta.dev != root_dev {
        Classification::SkippedBoundary
    } else {
        let estimated = estimated_entries(meta.size, ratio);
        if estimated > cfg.blacklist_threshold {
            Classification::Blacklisted { size: meta.size, estimated }
        } else if estimated > cfg.alert_threshold {
            Classification::Alert { size: meta.size, estimated }
        } else {
            Classification::Normal
        }
    }
}

/// Whether a class prunes the directory's subtree.
pub open spec fn prunes(c: Classification) -> bool {
    match c {
        Classification::Blacklisted { .. } => true,
        Classification::SkippedBoundary => true,
        Classification::SkippedExcluded => true,
        _ => false,
    }
}

/// The decision that needs no metadata: `None` when the metadata is needed.
pub open spec fn screen_spec(
    cfg: ScanConfigView,
    cancelled: bool,
    path: Seq<char>,
    is_dir: bool,
) -> Option<Verdict> {
    if !is_dir {
        Some(Verdict { action: WalkAction::Continue, class: None, counted: false })
    } else if cancelled {
        Some(Verdict { action: WalkAction::StopAll, class: None, counted: false })
    } else if cfg.skip_paths.contains(path) {
        Some(
            Verdict {
                action: WalkAction::SkipSubtree,
                class: Some(Classification::SkippedExcluded),
                counted: true,
            },
        )
    } else {
        None
    }
}

/// The decision for a directory from its metadata, `None` when that could
/// not be read.
pub open spec fn classify_spec(
    meta: Option<DirMetadata>,
    root_dev: u64,
    ratio: u64,
    cfg: ScanConfigView,
) -> Verdict {
    match meta {
        None => Verdict { action: WalkAction::Continue, class: Some(Classification::Normal), counted: false },
        Some(m) => {
            let c = directory_class(m, root_dev, ratio, cfg);
            Verdict {
                action: if prunes(c) { WalkAction::SkipSubtree } else { WalkAction::Continue },
                class: Some(c),
                counted: true,
            }
        },
    }
}

/// The whole decision for one discovered entry.
pub open spec fn verdict_spec(
    cfg: ScanConfigView,
    root_dev: u64,
    ratio: u64,
    cancelled: bool,
    path: Seq<char>,
    is_dir: bool,
    meta: Option<DirMetadata>,
) -> Verdict {
    match screen_spec(cfg, cancelled, path, is_dir) {
        Some(v) => v,
        None => classify_spec(meta, root_dev, ratio, cfg),
    }
}

/// First part of the decision, before any metadata is read: entries that are
/// not directories go on uncounted, cancellation stops the walk, and excluded
/// directories are pruned. `None` means that the directory's metadata is
/// needed, for `classify_directory`.
pub fn screen_entry(config: &ScanConfig, cancelled: bool, path: &str, is_dir: bool) -> (r: Option<
    Verdict,
>)
    ensures
        r == screen_spec(config@, cancelled, path@, is_dir),
{
    if !is_dir {
        Some(Verdict { action: WalkAction::Continue, class: None, counted: false })
    } else if cancelled {
        Some(Verdict { action: WalkAction::StopAll, class: None, counted: false })
    } else if contains_path(&config.skip_paths, path) {
        Some(
            Verdict {
                action: WalkAction::SkipSubtree,
                class: Some(Classification::SkippedExcluded),
                counted: true,
            },
        )
    } else {
        None
    }
}

/// Second part of the decision, from the directory's metadata (`None` when it
/// could not be read: the directory is then passed over, uncounted).
pub fn classify_directory(
    metadata: Option<DirMetadata>,
    root_dev: u64,
    ratio: u64,
    config: &ScanConfig,
) -> (r: Verdict)
    requires
        ratio > 0,
    ensures
        r == classify_spec(metadata, root_dev, ratio, config@),
{
    match metadata {
        None => Verdict { action: WalkAction::Continue, class: Some(Classification::Normal), counted: false },
        Some(m) => {
            if config.one_filesystem && m.dev != root_dev {
                Verdict {
                    action: WalkAction::SkipSubtree,
                    class: Some(Classification::SkippedBoundary),
                    counted: true,
                }
            } else {
                let estimated = m.size / ratio;
                if estimated > config.blacklist_threshold {
                    Verdict {
                        action: WalkAction::SkipSubtree,
                        class: Some(Classification::Blacklisted { size: m.size, estimated }),
                        counted: true,
                    }
                } else if estimated > config.alert_threshold {
                    Verdict {
                        action: WalkAction::Continue,
                        class: Some(Classification::Alert { size: m.size, estimated }),
                        counted: true,
                    }
                } else {
                    Verdict {
                        action: WalkAction::Continue,
                        class: Some(Classification::Normal),
                        counted: true,
                    }
                }
            }
        },
    }
}

/// The decision for one discovered entry, with its metadata already at hand.
pub fn process_dir_entry(
    root_dev: u64,
    ratio: u64,
    path: &str,
    is_dir: bool,
    metadata: Option<DirMetadata>,
    config: &ScanConfig,
    cancelled: bool,
) -> (r: Verdict)
    requires
        ratio > 0,
    ensures
        r == verdict_spec(config@, root_dev, ratio, cancelled, path@, is_dir, metadata),
{
    match screen_entry(config, cancelled, path, is_dir) {
        Some(v) => v,
        None => classify_directory(metadata, root_dev, ratio, config),
    }
}

/// The entry count to show for a reported directory: the exact count when
/// one was asked for and could be had, the estimate otherwise. It never
/// changes what the walk decides.
pub fn displayed_entries(accurate: bool, exact: Option<u64>, estimated: u64) -> (r: u64)
    ensures
        r == (match exact {
            Some(n) if accurate => n,
            _ => estimated,
        }),
{
    if accurate {
        match exact {
            Some(n) => n,
            None => estimated,
        }
    } else {
        estimated
    }
}

} // verus!
