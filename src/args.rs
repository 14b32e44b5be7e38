//! The options of a scan, and the checks on the values given for them.
use crate::pathset::{contains_path, insert_path, new_path_set, path_set_contents};
use normpath::PathExt;
use std::path::Path;
use vstd::prelude::*;

verus! {

/// Options of a scan.
#[derive(Debug, Clone, Default)]
pub struct Args {
    /// Follow symbolic links.
    pub follow_symlinks: bool,
    /// List reported directories for an exact entry count.
    pub accurate: bool,
    /// Do not cross mount points.
    pub one_filesystem: bool,
    /// Number of files created for calibration.
    pub calibration_count: u64,
    /// Estimated entry count above which a directory is reported.
    pub alert_threshold: u64,
    /// Estimated entry count above which a directory is reported and pruned.
    pub blacklist_threshold: u64,
    /// Number of threads for calibration and scanning.
    pub threads: usize,
    /// Seconds between status updates; 0 disables them.
    pub updates: u64,
    /// Size-to-entry ratio to use instead of calibrating; 0 calibrates.
    pub size_inode_ratio: u64,
    /// Where to create the calibration directory instead of the scanned root.
    pub calibration_path: Option<String>,
    /// Directories to leave out of the scan.
    pub skip_path: Vec<String>,
    /// Directories to scan.
    pub path: Vec<String>,
}

/// Fewest worker threads accepted.
pub const MIN_THREADS: usize = 2;

/// Most worker threads accepted.
pub const MAX_THREADS: usize = 65535;

pub open spec fn is_digit(c: char) -> bool {
    ('0' as u32) <= (c as u32) <= ('9' as u32)
}

pub open spec fn digit_value(c: char) -> nat {
    ((c as u32) - ('0' as u32)) as nat
}

/// Value of a string of decimal digits, most significant first.
pub open spec fn digits_value(s: Seq<char>) -> nat
    decreases s.len(),
{
    if s.len() == 0 {
        0
    } else {
        10 * digits_value(s.drop_last()) + digit_value(s.last())
    }
}

/// What follows an optional leading `+`.
pub open spec fn unsigned_digits(s: Seq<char>) -> Seq<char> {
    if s.len() > 0 && s[0] == '+' {
        s.drop_first()
    } else {
        s
    }
}

/// The number that a text denotes as a `usize`: an optional `+` and then one
/// or more decimal digits, with a value that fits; `None` for anything else.
pub open spec fn usize_text_value(s: Seq<char>) -> Option<nat> {
    let d = unsigned_digits(s);
    if d.len() > 0 && (forall|i: int| 0 <= i < d.len() ==> is_digit(#[trigger] d[i]))
        && digits_value(d) <= usize::MAX {
        Some(digits_value(d))
    } else {
        None
    }
}

/// Relies on `usize`'s `FromStr` (`str::parse::<usize>`): an optional `+`
/// followed by ASCII digits reads as their value when it fits; any other
/// text, the empty one included, is an error.
#[verifier::external_body]
fn parse_usize(s: &str) -> (r: Option<usize>)
    ensures
        r is Some <==> usize_text_value(s@) is Some,
        r is Some ==> r->0 as nat == usize_text_value(s@)->0,
{
    s.parse::<usize>().ok()
}

/// Why a thread count was refused.
#[derive(Debug, Clone, Copy, PartialEq, Eq, Structural)]
pub enum ThreadsError {
    /// The text is not a decimal number that fits in `usize`.
    NotANumber,
    /// The number is outside `MIN_THREADS..=MAX_THREADS`.
    OutOfRange(usize),
}

/// Parses a thread count and checks that it lies in
/// `MIN_THREADS..=MAX_THREADS`.
pub fn parse_threads(x: &str) -> (r: Result<usize, ThreadsError>)
    ensures
        usize_text_value(x@) is None ==> r == Err::<usize, ThreadsError>(ThreadsError::NotANumber),
        usize_text_value(x@) is Some ==> {
            let v = usize_text_value(x@)->0;
            if MIN_THREADS <= v <= MAX_THREADS {
                r == Ok::<usize, ThreadsError>(v as usize)
            } else {
                r == Err::<usize, ThreadsError>(ThreadsError::OutOfRange(v as usize))
            }
        },
{
    match parse_usize(x) {
        None => Err(ThreadsError::NotANumber),
        Some(v) => {
            if v < MIN_THREADS || v > MAX_THREADS {
                Err(ThreadsError::OutOfRange(v))
            } else {
                Ok(v)
            }
        },
    }
}

/// Relies on `Path::is_dir`: whether the path names an existing directory.
/// The answer depends on the filesystem, so nothing is promised of it.
#[verifier::external_body]
fn is_existing_dir(x: &str) -> (r: bool) {
    Path::new(x).is_dir()
}

/// Relies on normpath's `PathExt::normalize` (on Unix `Path::canonicalize`):
/// the absolute path with every link resolved, `None` where that fails or is
/// not valid Unicode. The answer depends on the filesystem, so nothing is
/// promised of it.
#[verifier::external_body]
fn normalize_path(x: &str) -> (r: Option<String>) {
    match Path::new(x).normalize() {
        Ok(p) => p.into_path_buf().into_os_string().into_string().ok(),
        Err(_) => None,
    }
}

/// Whether `x` names an existing directory whose path can be normalized.
pub fn directory_exists(x: &str) -> bool {
    is_existing_dir(x) && normalize_path(x).is_some()
}

/// Why a path to scan was refused.
#[derive(Debug, Clone, PartialEq, Eq)]
pub enum PathError {
    /// The path does not name an existing directory.
    NotADirectory(String),
    /// The directory's path could not be normalized.
    Unresolvable(String),
}

/// The answer for a path to scan, given whether it names an existing
/// directory and what it normalizes to.
pub fn path_argument(x: &str, exists: bool, normalized: Option<String>) -> (r: Result<
    String,
    PathError,
>)
    ensures
        !exists ==> (r matches Err(PathError::NotADirectory(s)) && s@ == x@),
        exists && normalized is None ==> (r matches Err(PathError::Unresolvable(s)) && s@ == x@),
        exists && normalized is Some ==> r == Ok::<String, PathError>(normalized->0),
{
    if !exists {
        Err(PathError::NotADirectory(x.to_string()))
    } else {
        match normalized {
            Some(p) => Ok(p),
            None => Err(PathError::Unresolvable(x.to_string())),
        }
    }
}

/// Checks that `x` names an existing directory and returns its normalized
/// path. The filesystem decides which answer comes; an error names `x`.
pub fn parse_paths(x: &str) -> (r: Result<String, PathError>)
    ensures
        r matches Err(PathError::NotADirectory(s)) ==> s@ == x@,
        r matches Err(PathError::Unresolvable(s)) ==> s@ == x@,
{
    if directory_exists(x) {
        let normalized = normalize_path(x);
        path_argument(x, true, normalized)
    } else {
        path_argument(x, false, None)
    }
}

/// The characters of each path.
pub open spec fn path_views(v: Seq<String>) -> Seq<Seq<char>> {
    v.map_values(|p: String| p@)
}

/// The paths of `s` in order, each kept only where it first occurs.
pub open spec fn first_occurrences(s: Seq<Seq<char>>) -> Seq<Seq<char>>
    decreases s.len(),
{
    if s.len() == 0 {
        Seq::empty()
    } else {
        let kept = first_occurrences(s.drop_last());
        if kept.contains(s.last()) {
            kept
        } else {
            kept.push(s.last())
        }
    }
}

/// The paths to scan, each once, in the order in which they were first given.
pub fn unique_paths(paths: &Vec<String>) -> (r: Vec<String>)
    ensures
        path_views(r@) == first_occurrences(path_views(paths@)),
{
    let mut seen = new_path_set();
    let mut kept: Vec<String> = Vec::new();
    let mut i: usize = 0;
    while i < paths.len()
        invariant
            0 <= i <= paths@.len(),
            path_views(kept@) == first_occurrences(path_views(paths@).subrange(0, i as int)),
            path_set_contents(seen) == path_views(kept@).to_set(),
        decreases paths@.len() - i,
    {
        let p = &paths[i];
        let ghost before = path_views(paths@).subrange(0, i as int);
        let ghost after = path_views(paths@).subrange(0, i + 1);
        assert(after.drop_last() == before);
        assert(after.last() == p@);
        if !contains_path(&seen, p.as_str()) {
            let ghost old_kept = kept@;
            insert_path(&mut seen, p.clone());
            kept.push(p.clone());
            assert(path_views(kept@) == path_views(old_kept).push(p@));
            assert(path_views(kept@).to_set() =~= path_views(old_kept).to_set().insert(p@)) by {
                broadcast use vstd::seq_lib::lemma_seq_contains_after_push;

            }
        }
        i = i + 1;
    }
    assert(path_views(paths@).subrange(0, paths@.len() as int) == path_views(paths@));
    kept
}

} // verus!
